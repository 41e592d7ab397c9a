use track::error::TrackError;
use track::registry::{ActivityInfo, Data};

#[test]
fn activity_info_keeps_its_fields() {
    let info = ActivityInfo::new("alpha".to_string(), 3);
    assert_eq!(info.name, "alpha");
    assert_eq!(info.id, 3);
    let copy = info.duplicate();
    assert_eq!(copy.name, "alpha");
    assert_eq!(copy.id, 3);
}

#[test]
fn register_assigns_smallest_unused_id_and_selects() {
    let mut data = Data::new();
    assert_eq!(data.register("alpha".to_string()), Ok(0));
    assert_eq!(data.register("beta".to_string()), Ok(1));
    assert_eq!(data.register("gamma".to_string()), Ok(2));
    assert_eq!(data.current.as_ref().map(|c| c.name.as_str()), Some("gamma"));

    assert_eq!(
        data.register("beta".to_string()),
        Err(TrackError::DuplicateActivity)
    );
    assert_eq!(data.all.len(), 3);

    // Freeing an identifier in the middle makes it the next one assigned.
    assert_eq!(data.remove_activity("beta".to_string()), Ok(1));
    assert_eq!(data.register("delta".to_string()), Ok(1));
}

#[test]
fn select_switches_the_active_activity() {
    let mut data = Data::new();
    data.register("alpha".to_string()).unwrap();
    data.register("beta".to_string()).unwrap();
    assert_eq!(data.select("alpha".to_string()), Ok(()));
    assert_eq!(data.current.as_ref().map(|c| c.id), Some(0));
    assert_eq!(
        data.select("missing".to_string()),
        Err(TrackError::NoSuchActivity)
    );
    assert_eq!(data.current.as_ref().map(|c| c.id), Some(0));
}

#[test]
fn rename_updates_the_entry_and_the_active_copy() {
    let mut data = Data::new();
    data.register("alpha".to_string()).unwrap();
    data.register("beta".to_string()).unwrap();
    data.select("alpha".to_string()).unwrap();

    assert_eq!(data.rename("alpha".to_string(), "omega".to_string()), Ok(()));
    assert_eq!(data.all[0].name, "omega");
    assert_eq!(data.all[0].id, 0);
    assert_eq!(data.current.as_ref().map(|c| c.name.as_str()), Some("omega"));

    assert_eq!(
        data.rename("missing".to_string(), "x".to_string()),
        Err(TrackError::NoSuchActivity)
    );
    assert_eq!(
        data.rename("beta".to_string(), "omega".to_string()),
        Err(TrackError::DuplicateActivity)
    );
    // Renaming an activity to its own name is a no-op, not a clash.
    assert_eq!(data.rename("beta".to_string(), "beta".to_string()), Ok(()));
}

#[test]
fn removing_the_active_activity_deselects_it() {
    let mut data = Data::new();
    data.register("alpha".to_string()).unwrap();
    data.register("beta".to_string()).unwrap();
    assert_eq!(data.remove_activity("beta".to_string()), Ok(1));
    assert!(data.current.is_none());
    assert_eq!(data.all.len(), 1);
    assert_eq!(
        data.remove_activity("beta".to_string()),
        Err(TrackError::NoSuchActivity)
    );
    assert!(matches!(data.active(), Err(TrackError::NoActiveActivity)));
}

#[test]
fn check_wf_refuses_duplicate_ids_or_names() {
    let good = Data {
        current: None,
        all: vec![
            ActivityInfo::new("a".to_string(), 0),
            ActivityInfo::new("b".to_string(), 1),
        ],
    };
    assert!(good.check_wf());
    let dup_id = Data {
        current: None,
        all: vec![
            ActivityInfo::new("a".to_string(), 0),
            ActivityInfo::new("b".to_string(), 0),
        ],
    };
    assert!(!dup_id.check_wf());
    let dup_name = Data {
        current: None,
        all: vec![
            ActivityInfo::new("a".to_string(), 0),
            ActivityInfo::new("a".to_string(), 1),
        ],
    };
    assert!(!dup_name.check_wf());
}
