use save_map_server::error::MapError;
use save_map_server::resolver::{
    checked_map_pattern, choose_latest_save, has_invalid_chars, latest_candidate, map_pattern,
    SaveCandidate,
};

fn cand(path: &str, modified: Option<i128>) -> SaveCandidate {
    SaveCandidate { path: path.to_string(), modified }
}

fn bad_request(r: Result<String, MapError>) -> String {
    match r {
        Err(MapError::BadRequest(m)) => m,
        other => panic!("expected BadRequest, got {:?}", other),
    }
}

fn not_found(r: Result<String, MapError>) -> String {
    match r {
        Err(MapError::NotFound(m)) => m,
        other => panic!("expected NotFound, got {:?}", other),
    }
}

#[test]
fn names_with_separators_or_dots_are_refused() {
    for name in ["a/b", "a\\b", "a.b", "..", "../etc/passwd", "/", "x."] {
        assert!(has_invalid_chars(name));
        let msg = bad_request(checked_map_pattern("saves", name));
        assert_eq!(msg, "invalid characters in name");
    }
}

#[test]
fn plain_names_are_accepted() {
    assert!(!has_invalid_chars("Noobville"));
    assert!(!has_invalid_chars(""));
    assert_eq!(checked_map_pattern("saves", "Noobville").unwrap(), "saves/Noobville*.sav");
}

#[test]
fn pattern_is_dir_slash_name_star_sav() {
    assert_eq!(map_pattern("/srv/saves", "Foo"), "/srv/saves/Foo*.sav");
    assert_eq!(map_pattern("", ""), "/*.sav");
}

#[test]
fn newest_autosave_is_served() {
    let listing = Ok(vec![
        cand("saves/Noobville_autosave_0.sav", Some(1_000)),
        cand("saves/Noobville_autosave_1.sav", Some(2_000)),
    ]);
    let r = choose_latest_save("saves/Noobville*.sav", &listing);
    assert_eq!(r.unwrap(), "saves/Noobville_autosave_1.sav");
}

#[test]
fn newest_wins_whatever_its_position() {
    let listing = Ok(vec![
        cand("saves/A_0.sav", Some(5)),
        cand("saves/A_1.sav", Some(-3)),
        cand("saves/A_2.sav", Some(4)),
    ]);
    assert_eq!(choose_latest_save("saves/A*.sav", &listing).unwrap(), "saves/A_0.sav");
}

#[test]
fn equal_times_pick_the_first() {
    let cands = vec![
        cand("saves/A_0.sav", Some(1)),
        cand("saves/A_1.sav", Some(7)),
        cand("saves/A_2.sav", Some(7)),
    ];
    assert_eq!(latest_candidate(&cands), Some(1));
}

#[test]
fn unreadable_entries_are_skipped() {
    let cands = vec![
        cand("saves/A_0.sav", None),
        cand("saves/A_1.sav", Some(3)),
        cand("saves/A_2.sav", None),
    ];
    assert_eq!(latest_candidate(&cands), Some(1));
    let listing = Ok(cands);
    assert_eq!(choose_latest_save("saves/A*.sav", &listing).unwrap(), "saves/A_1.sav");
}

#[test]
fn no_match_names_the_pattern() {
    let listing: Result<Vec<SaveCandidate>, String> = Ok(vec![]);
    let r = choose_latest_save("saves/Foo*.sav", &listing);
    let e = r.unwrap_err();
    assert_eq!(e.status(), 404);
    let msg = not_found(Err(e));
    assert_eq!(msg, "no matching files found for pattern: saves/Foo*.sav");
    assert!(msg.contains("saves/Foo*.sav"));
}

#[test]
fn only_unreadable_entries_is_not_found() {
    let listing = Ok(vec![cand("saves/Foo_1.sav", None)]);
    let msg = not_found(choose_latest_save("saves/Foo*.sav", &listing));
    assert_eq!(msg, "no matching files found for pattern: saves/Foo*.sav");
}

#[test]
fn refused_pattern_is_bad_request() {
    let listing: Result<Vec<SaveCandidate>, String> =
        Err("Pattern syntax error near position 7: invalid range pattern".to_string());
    let msg = bad_request(choose_latest_save("saves/[*.sav", &listing));
    assert_eq!(msg, "Invalid pattern: Pattern syntax error near position 7: invalid range pattern");
}

#[test]
fn asking_twice_gives_the_same_file() {
    let listing = Ok(vec![
        cand("saves/B_0.sav", Some(10)),
        cand("saves/B_1.sav", Some(30)),
        cand("saves/B_2.sav", Some(20)),
    ]);
    let first = choose_latest_save("saves/B*.sav", &listing).unwrap();
    let second = choose_latest_save("saves/B*.sav", &listing).unwrap();
    assert_eq!(first, second);
    assert_eq!(first, "saves/B_1.sav");
}

#[test]
fn errors_map_to_status_and_message() {
    let nf = MapError::NotFound("gone".to_string());
    let br = MapError::BadRequest("bad".to_string());
    assert_eq!(nf.status(), 404);
    assert_eq!(br.status(), 400);
    assert_eq!(nf.message(), "gone");
    assert_eq!(br.message(), "bad");
}
