use pbgui_messaging::cache::PinChangesCache;
use pbgui_messaging::choose_alt_dist::{
    build_version_list_and_map, cache_distribution_edit, dist_id_for, distribution_name, DistEdit,
    DistRow,
};

fn dist_rows() -> Vec<DistRow> {
    vec![
        DistRow {
            version: "1.0.0".to_string(),
            id: 10,
        },
        DistRow {
            version: "1.2.0".to_string(),
            id: 11,
        },
        DistRow {
            version: "2.0.0".to_string(),
            id: 12,
        },
    ]
}

#[test]
fn version_list_keeps_order_and_finds_the_current_version() {
    let (versions, idx) = build_version_list_and_map("1.2.0", &dist_rows());
    assert_eq!(
        versions,
        vec![
            "1.0.0".to_string(),
            "1.2.0".to_string(),
            "2.0.0".to_string(),
        ]
    );
    assert_eq!(idx, 1);
}

#[test]
fn absent_current_version_defaults_to_the_first_entry() {
    let (_versions, idx) = build_version_list_and_map("9.9.9", &dist_rows());
    assert_eq!(idx, 0);
}

#[test]
fn version_lookup_returns_its_id_and_the_last_duplicate_wins() {
    let mut rows = dist_rows();
    assert_eq!(dist_id_for(&rows, "2.0.0"), Some(12));
    assert_eq!(dist_id_for(&rows, "9.9.9"), None);
    rows.push(DistRow {
        version: "1.0.0".to_string(),
        id: 99,
    });
    assert_eq!(dist_id_for(&rows, "1.0.0"), Some(99));
}

#[test]
fn distribution_name_joins_package_and_version() {
    assert_eq!(distribution_name("modelpublish", "1.2.3"), "modelpublish-1.2.3");
}

#[test]
fn picking_the_displayed_distribution_is_skipped() {
    let mut cache = PinChangesCache::new();
    let r = cache_distribution_edit(
        &mut cache,
        42,
        7,
        100,
        "modelpublish-1.2.0",
        "modelpublish-1.2.0",
    );
    assert_eq!(r, DistEdit::Skip);
    assert_eq!(cache.count(), 0);
}

#[test]
fn first_edit_appends_then_a_second_updates_in_place() {
    let mut cache = PinChangesCache::new();
    let r = cache_distribution_edit(
        &mut cache,
        42,
        7,
        100,
        "modelpublish-1.2.0",
        "modelpublish-2.0.0",
    );
    assert_eq!(r, DistEdit::AppendNew { row: 0 });
    assert_eq!(cache.count(), 1);
    let r = cache_distribution_edit(
        &mut cache,
        42,
        7,
        200,
        "modelpublish-1.2.0",
        "modelpublish-3.0.0",
    );
    assert_eq!(r, DistEdit::UpdateExisting { row: 0 });
    assert_eq!(cache.count(), 1);
    let r = cache_distribution_edit(
        &mut cache,
        43,
        8,
        300,
        "houdpublish-0.3.1",
        "houdpublish-0.4.0",
    );
    assert_eq!(r, DistEdit::AppendNew { row: 1 });
    assert_eq!(cache.count(), 2);
}
