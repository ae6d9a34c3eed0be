use pbgui_messaging::hierarchy::{build_level_map, LevelMap, LevelsError};

fn rows(v: &[&str]) -> Vec<String> {
    v.iter().map(|s| s.to_string()).collect()
}

fn shots(v: &[&str]) -> Vec<String> {
    v.iter().map(|s| s.to_string()).collect()
}

#[test]
fn show_alone_gives_empty_hierarchy() {
    let m = build_level_map(&rows(&["show"])).unwrap();
    assert!(m.is_empty());
    assert_eq!(m.len(), 0);
}

#[test]
fn one_sequence_collects_its_shots() {
    let m = build_level_map(&rows(&[
        "show",
        "show.rd",
        "show.rd.0001",
        "show.rd.0002",
        "show.rd.9999",
    ]))
    .unwrap();
    assert_eq!(m.len(), 1);
    assert_eq!(m.get("rd"), Some(&shots(&["0001", "0002", "9999"])));
}

#[test]
fn new_sequence_flushes_the_previous_one() {
    let m = build_level_map(&rows(&[
        "show",
        "show.rd",
        "show.rd.0001",
        "show.aa",
        "show.aa.0001",
    ]))
    .unwrap();
    assert_eq!(m.len(), 2);
    assert_eq!(m.get("rd"), Some(&shots(&["0001"])));
    assert_eq!(m.get("aa"), Some(&shots(&["0001"])));
}

#[test]
fn final_sequence_is_committed_without_a_trailing_row() {
    let m = build_level_map(&rows(&["show", "show.rd", "show.rd.0001"])).unwrap();
    assert_eq!(m.len(), 1);
    assert_eq!(m.get("rd"), Some(&shots(&["0001"])));
}

#[test]
fn sequence_without_shots_is_kept_empty() {
    let m = build_level_map(&rows(&["show", "show.rd", "show.aa", "show.aa.0001"])).unwrap();
    assert_eq!(m.len(), 2);
    assert_eq!(m.get("rd"), Some(&shots(&[])));
    assert_eq!(m.get("aa"), Some(&shots(&["0001"])));
}

#[test]
fn one_segment_row_is_malformed() {
    let r = build_level_map(&rows(&["show", "show.rd", "weird"]));
    assert_eq!(r.unwrap_err(), LevelsError::MalformedRow { row: 2 });
}

#[test]
fn four_segment_row_is_malformed() {
    let r = build_level_map(&rows(&["show", "show.rd.0001.extra"]));
    assert_eq!(r.unwrap_err(), LevelsError::MalformedRow { row: 1 });
}

#[test]
fn no_rows_at_all_is_an_error() {
    let r = build_level_map(&rows(&[]));
    assert_eq!(r.unwrap_err(), LevelsError::NoRows);
}

#[test]
fn insert_replaces_an_existing_key_in_place() {
    let mut m = LevelMap::new();
    m.insert("rd".to_string(), shots(&["0001"]));
    m.insert("aa".to_string(), shots(&["0002"]));
    m.insert("rd".to_string(), shots(&["0003"]));
    assert_eq!(m.len(), 2);
    assert_eq!(m.get("rd"), Some(&shots(&["0003"])));
    assert_eq!(m.get("aa"), Some(&shots(&["0002"])));
    assert_eq!(m.get("zz"), None);
}

#[test]
fn sequences_keep_their_order_of_first_appearance() {
    let m = build_level_map(&rows(&[
        "show",
        "show.rd",
        "show.rd.0001",
        "show.aa",
        "show.zz",
    ]))
    .unwrap();
    assert_eq!(m.sequence_names(), shots(&["rd", "aa", "zz"]));
}

#[test]
fn built_map_equals_a_hand_built_one() {
    let built = build_level_map(&rows(&["show", "show.rd", "show.rd.0001"])).unwrap();
    let mut hand = LevelMap::new();
    hand.insert("rd".to_string(), shots(&["0001"]));
    assert_eq!(built, hand);
}
