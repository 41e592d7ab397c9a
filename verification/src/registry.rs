//! The activity registry: the named activities, each with a stable numeric
//! identifier, and which of them (if any) is currently active. Names and
//! identifiers are unique; a new activity receives the smallest unused
//! identifier.

use vstd::prelude::*;

use crate::error::TrackError;

verus! {

/// One registered activity: its unique name and stable identifier.
pub struct ActivityInfo {
    pub name: String,
    pub id: u32,
}

impl ActivityInfo {
    pub fn new(name: String, id: u32) -> (r: ActivityInfo)
        ensures
            r == (ActivityInfo { name, id }),
    {
        ActivityInfo { name, id }
    }

    /// An exact copy.
    pub fn duplicate(&self) -> (r: ActivityInfo)
        ensures
            r == *self,
    {
        ActivityInfo { name: self.name.clone(), id: self.id }
    }
}

/// The registry: every tracked activity, and the currently active one.
pub struct Data {
    pub current: Option<ActivityInfo>,
    pub all: Vec<ActivityInfo>,
}

impl Data {
    /// The registry invariant: identifiers are unique and names are unique.
    pub open spec fn wf(self) -> bool {
        &&& forall|i: int, j: int|
            #![trigger self.all@[i], self.all@[j]]
            0 <= i < j < self.all@.len() ==> self.all@[i].id != self.all@[j].id
        &&& forall|i: int, j: int|
            #![trigger self.all@[i], self.all@[j]]
            0 <= i < j < self.all@.len() ==> self.all@[i].name@ != self.all@[j].name@
    }

    /// An empty registry: no activities, none active.
    pub fn new() -> (r: Data)
        ensures
            r.current is None,
            r.all@.len() == 0,
            r.wf(),
    {
        Data { current: None, all: Vec::new() }
    }

    /// Decides the registry invariant at run time, for data arriving from
    /// untrusted storage.
    pub fn check_wf(&self) -> (b: bool)
        ensures
            b == self.wf(),
    {
        let len = self.all.len();
        let mut i: usize = 0;
        while i < len
            invariant
                i <= len,
                len == self.all@.len(),
                forall|a: int, b: int|
                    #![trigger self.all@[a], self.all@[b]]
                    0 <= a < b < i ==> self.all@[a].id != self.all@[b].id && self.all@[a].name@
                        != self.all@[b].name@,
            decreases len - i,
        {
            let mut j: usize = 0;
            while j < i
                invariant
                    j <= i < len,
                    len == self.all@.len(),
                    forall|b: int|
                        0 <= b < j ==> (#[trigger] self.all@[b]).id != self.all@[i as int].id
                            && self.all@[b].name@ != self.all@[i as int].name@,
                decreases i - j,
            {
                if self.all[j].id == self.all[i].id || self.all[j].name == self.all[i].name {
                    return false;
                }
                j += 1;
            }
            i += 1;
        }
        true
    }

    /// Whether some activity carries this identifier.
    fn contains_id(&self, id: u32) -> (r: bool)
        ensures
            r == spec_has_id(self.all@, id as int),
    {
        let len = self.all.len();
        let mut j: usize = 0;
        while j < len
            invariant
                j <= len,
                len == self.all@.len(),
                forall|k: int| 0 <= k < j ==> (#[trigger] self.all@[k]).id != id,
            decreases len - j,
        {
            if self.all[j].id == id {
                return true;
            }
            j += 1;
        }
        false
    }

    /// The index of the activity with this name, if one exists.
    fn find_name(&self, name: &String) -> (r: Option<usize>)
        ensures
            match r {
                Some(m) => m < self.all@.len() && self.all@[m as int].name@ == name@,
                None => forall|j: int|
                    0 <= j < self.all@.len() ==> (#[trigger] self.all@[j]).name@ != name@,
            },
    {
        let len = self.all.len();
        let mut j: usize = 0;
        while j < len
            invariant
                j <= len,
                len == self.all@.len(),
                forall|k: int| 0 <= k < j ==> (#[trigger] self.all@[k]).name@ != name@,
            decreases len - j,
        {
            if self.all[j].name == *name {
                return Some(j);
            }
            j += 1;
        }
        None
    }

    /// Registers a new activity under this name and makes it active. The
    /// name must be new; the identifier assigned is the smallest one no
    /// existing activity carries.
    #[verifier::loop_isolation(false)]
    pub fn register(&mut self, name: String) -> (r: Result<u32, TrackError>)
        requires
            old(self).wf(),
            old(self).all@.len() < u32::MAX as nat,
        ensures
            match r {
                Ok(id) => {
                    &&& forall|j: int|
                        0 <= j < old(self).all@.len() ==> (#[trigger] old(self).all@[j]).name@
                            != name@
                    &&& forall|j: int|
                        0 <= j < old(self).all@.len() ==> (#[trigger] old(self).all@[j]).id != id
                    &&& forall|k: int| 0 <= k < id ==> #[trigger] spec_has_id(old(self).all@, k)
                    &&& final(self).all@.len() == old(self).all@.len() + 1
                    &&& forall|j: int|
                        0 <= j < old(self).all@.len() ==> final(self).all@[j] == #[trigger] old(self).all@[j]
                    &&& final(self).all@[old(self).all@.len() as int].name@ == name@
                    &&& final(self).all@[old(self).all@.len() as int].id == id
                    &&& (final(self).current matches Some(c) && c.name@ == name@ && c.id == id)
                    &&& final(self).wf()
                },
                Err(e) => {
                    &&& e == TrackError::DuplicateActivity
                    &&& exists|j: int|
                        0 <= j < old(self).all@.len() && (#[trigger] old(self).all@[j]).name@
                            == name@
                    &&& final(self).all@ == old(self).all@
                    &&& final(self).current == old(self).current
                },
            },
    {
        if let Some(_) = self.find_name(&name) {
            return Err(TrackError::DuplicateActivity);
        }
        let mut id: u32 = 0;
        while self.contains_id(id)
            invariant
                id <= self.all@.len(),
                forall|k: int| 0 <= k < id ==> #[trigger] spec_has_id(self.all@, k),
            decreases self.all@.len() - id,
        {
            proof {
                lemma_ids_pigeonhole(self.all@, id as int + 1);
            }
            id = id + 1;
        }
        self.all.push(ActivityInfo { name: name.clone(), id });
        self.current = Some(ActivityInfo { name, id });
        proof {
            let s_old = old(self).all@;
            let s2 = self.all@;
            assert forall|a: int, b: int|
                #![trigger s2[a], s2[b]]
                0 <= a < b < s2.len() implies s2[a].id != s2[b].id && s2[a].name@ != s2[b].name@ by {
                if b < s_old.len() {
                    assert(s2[a] == s_old[a] && s2[b] == s_old[b]);
                } else {
                    assert(s2[a] == s_old[a]);
                }
            }
        }
        Ok(id)
    }

    /// Makes the activity with this name active.
    pub fn select(&mut self, name: String) -> (r: Result<(), TrackError>)
        requires
            old(self).wf(),
        ensures
            final(self).all@ == old(self).all@,
            final(self).wf(),
            match r {
                Ok(_) => exists|j: int|
                    0 <= j < old(self).all@.len() && (#[trigger] old(self).all@[j]).name@ == name@
                        && final(self).current == Some(old(self).all@[j]),
                Err(e) => {
                    &&& e == TrackError::NoSuchActivity
                    &&& forall|j: int|
                        0 <= j < old(self).all@.len() ==> (#[trigger] old(self).all@[j]).name@
                            != name@
                    &&& final(self).current == old(self).current
                },
            },
    {
        match self.find_name(&name) {
            Some(m) => {
                let info = self.all[m].duplicate();
                self.current = Some(info);
                Ok(())
            },
            None => Err(TrackError::NoSuchActivity),
        }
    }

    /// Renames an activity. The old name must exist; the new name must not
    /// belong to any other activity (renaming an activity to its own name
    /// is allowed). An active activity stays active under its new name.
    pub fn rename(&mut self, from: String, to: String) -> (r: Result<(), TrackError>)
        requires
            old(self).wf(),
        ensures
            match r {
                Ok(_) => {
                    &&& exists|j: int|
                        0 <= j < old(self).all@.len() && (#[trigger] old(self).all@[j]).name@
                            == from@
                    &&& final(self).all@.len() == old(self).all@.len()
                    &&& forall|j: int|
                        0 <= j < old(self).all@.len() && old(self).all@[j].name@ != from@ ==> final(self).all@[j] == #[trigger] old(self).all@[j]
                    &&& forall|j: int|
                        0 <= j < old(self).all@.len() && old(self).all@[j].name@ == from@ ==> (
                        #[trigger] final(self).all@[j]).name@ == to@ && final(self).all@[j].id
                            == old(self).all@[j].id
                    &&& match (old(self).current, final(self).current) {
                        (Some(c), Some(c2)) => if exists|j: int|
                            0 <= j < old(self).all@.len() && (#[trigger] old(self).all@[j]).name@
                                == from@ && old(self).all@[j].id == c.id {
                            c2.id == c.id && c2.name@ == to@
                        } else {
                            c2 == c
                        },
                        (None, None) => true,
                        _ => false,
                    }
                    &&& final(self).wf()
                },
                Err(e) => {
                    &&& final(self).all@ == old(self).all@
                    &&& final(self).current == old(self).current
                    &&& (e == TrackError::NoSuchActivity <==> forall|j: int|
                        0 <= j < old(self).all@.len() ==> (#[trigger] old(self).all@[j]).name@
                            != from@)
                    &&& (e == TrackError::DuplicateActivity ==> to@ != from@ && exists|j: int|
                        0 <= j < old(self).all@.len() && (#[trigger] old(self).all@[j]).name@
                            == to@)
                },
            },
    {
        let m = match self.find_name(&from) {
            Some(m) => m,
            None => {
                return Err(TrackError::NoSuchActivity);
            },
        };
        match self.find_name(&to) {
            Some(t) => {
                if t != m {
                    return Err(TrackError::DuplicateActivity);
                }
            },
            None => {},
        }
        let id = self.all[m].id;
        let updated = ActivityInfo { name: to.clone(), id };
        self.all.set(m, updated);
        proof {
            assert(self.all@[m as int].name@ == to@);
        }
        if let Some(c) = &self.current {
            if c.id == id {
                self.current = Some(ActivityInfo { name: to, id });
            }
        }
        proof {
            let s_old = old(self).all@;
            let s2 = self.all@;
            assert forall|a: int, b: int|
                #![trigger s2[a], s2[b]]
                0 <= a < b < s2.len() implies s2[a].id != s2[b].id && s2[a].name@ != s2[b].name@ by {
                assert(s_old[a].id != s_old[b].id && s_old[a].name@ != s_old[b].name@);
                if a != m && b != m {
                    assert(s2[a] == s_old[a] && s2[b] == s_old[b]);
                }
            }
        }
        Ok(())
    }

    /// Removes the activity with this name from the registry and hands back
    /// its identifier (so the caller can drop its stored ledger). If it was
    /// active, nothing is active afterwards.
    pub fn remove_activity(&mut self, name: String) -> (r: Result<u32, TrackError>)
        requires
            old(self).wf(),
        ensures
            match r {
                Ok(id) => {
                    &&& exists|m: int|
                        0 <= m < old(self).all@.len() && (#[trigger] old(self).all@[m]).name@
                            == name@ && old(self).all@[m].id == id && final(self).all@ == old(self).all@.remove(m)
                    &&& (match old(self).current {
                        Some(c) => if c.id == id {
                            final(self).current is None
                        } else {
                            final(self).current == old(self).current
                        },
                        None => final(self).current is None,
                    })
                    &&& final(self).wf()
                },
                Err(e) => {
                    &&& e == TrackError::NoSuchActivity
                    &&& forall|j: int|
                        0 <= j < old(self).all@.len() ==> (#[trigger] old(self).all@[j]).name@
                            != name@
                    &&& final(self).all@ == old(self).all@
                    &&& final(self).current == old(self).current
                },
            },
    {
        let m = match self.find_name(&name) {
            Some(m) => m,
            None => {
                return Err(TrackError::NoSuchActivity);
            },
        };
        proof {
            old(self).all@.remove_ensures(m as int);
        }
        let removed = self.all.remove(m);
        let id = removed.id;
        match &self.current {
            Some(c) => {
                if c.id == id {
                    self.current = None;
                }
            },
            None => {},
        }
        proof {
            let s_old = old(self).all@;
            let s2 = self.all@;
            assert forall|a: int, b: int|
                #![trigger s2[a], s2[b]]
                0 <= a < b < s2.len() implies s2[a].id != s2[b].id && s2[a].name@ != s2[b].name@ by {
                let a0: int = if a < m { a } else { a + 1 };
                let b0: int = if b < m { b } else { b + 1 };
                assert(s2[a] == s_old[a0] && s2[b] == s_old[b0]);
            }
        }
        Ok(id)
    }

    /// The active activity, or the error every ledger operation reports
    /// when none is selected.
    pub fn active(&self) -> (r: Result<&ActivityInfo, TrackError>)
        ensures
            match r {
                Ok(info) => self.current == Some(*info),
                Err(e) => e == TrackError::NoActiveActivity && self.current is None,
            },
    {
        match &self.current {
            Some(info) => Ok(info),
            None => Err(TrackError::NoActiveActivity),
        }
    }
}

/// Some activity in the sequence carries this identifier.
pub open spec fn spec_has_id(infos: Seq<ActivityInfo>, k: int) -> bool {
    exists|j: int| 0 <= j < infos.len() && (#[trigger] infos[j]).id == k
}

/// If identifiers are pairwise distinct and every value below `n` occurs,
/// there are at least `n` of them.
proof fn lemma_ids_pigeonhole(infos: Seq<ActivityInfo>, n: int)
    requires
        forall|i: int, j: int|
            #![trigger infos[i], infos[j]]
            0 <= i < j < infos.len() ==> infos[i].id != infos[j].id,
        forall|k: int| 0 <= k < n ==> #[trigger] spec_has_id(infos, k),
        n >= 0,
    ensures
        n <= infos.len(),
    decreases n,
{
    if n > 0 {
        assert(spec_has_id(infos, n - 1));
        let j0 = choose|j: int| 0 <= j < infos.len() && (#[trigger] infos[j]).id == n - 1;
        let rest = infos.remove(j0);
        infos.remove_ensures(j0);
        assert forall|i: int, j: int|
            #![trigger rest[i], rest[j]]
            0 <= i < j < rest.len() implies rest[i].id != rest[j].id by {
            let i0: int = if i < j0 { i } else { i + 1 };
            let jj0: int = if j < j0 { j } else { j + 1 };
            assert(rest[i] == infos[i0] && rest[j] == infos[jj0]);
        }
        assert forall|k: int| 0 <= k < n - 1 implies #[trigger] spec_has_id(rest, k) by {
            assert(spec_has_id(infos, k));
            let w = choose|j: int| 0 <= j < infos.len() && (#[trigger] infos[j]).id == k;
            if w < j0 {
                assert(rest[w] == infos[w]);
                assert(rest[w].id == k);
            } else {
                assert(w != j0);
                assert(rest[w - 1] == infos[w]);
                assert(rest[w - 1].id == k);
            }
        }
        lemma_ids_pigeonhole(rest, n - 1);
    }
}

} // verus!
