use pbgui_messaging::cache::{Change, PinChangesCache};

fn change(vpin_id: i64, new_dist_id: i64) -> Change {
    Change::ChangeDistribution {
        vpin_id,
        new_dist_id,
    }
}

#[test]
fn updating_the_same_identity_does_not_grow_the_cache() {
    let mut cache = PinChangesCache::new();
    assert_eq!(cache.count(), 0);
    cache.record_first_edit(42, "modelpublish-1.2.0".to_string(), 0, change(7, 100));
    assert_eq!(cache.count(), 1);
    cache.update_existing(42, change(7, 200));
    assert_eq!(cache.count(), 1);
    assert_eq!(cache.row_for(42), Some(0));
    assert!(cache.has(42));
}

#[test]
fn distinct_identities_each_keep_their_own_row() {
    let mut cache = PinChangesCache::new();
    cache.record_first_edit(42, "modelpublish-1.2.0".to_string(), 0, change(7, 100));
    cache.record_first_edit(43, "houdpublish-0.3.1".to_string(), 1, change(8, 101));
    assert_eq!(cache.count(), 2);
    assert_eq!(cache.row_for(42), Some(0));
    assert_eq!(cache.row_for(43), Some(1));
}

#[test]
fn missing_identity_has_no_row() {
    let mut cache = PinChangesCache::new();
    assert!(!cache.has(42));
    assert_eq!(cache.row_for(42), None);
    cache.record_first_edit(42, "modelpublish-1.2.0".to_string(), 0, change(7, 100));
    assert!(!cache.has(43));
    assert_eq!(cache.row_for(43), None);
}
