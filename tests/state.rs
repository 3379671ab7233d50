use reddark::SubredditState;

const ALL: [SubredditState; 6] = [
    SubredditState::UNKNOWN,
    SubredditState::PRIVATE,
    SubredditState::PUBLIC,
    SubredditState::ARCHIVED,
    SubredditState::OLIVER,
    SubredditState::RESTRICTED,
];

#[test]
fn dark_and_light_partition_every_state() {
    for s in ALL.iter() {
        assert_eq!(s.is_dark(), !s.is_light(), "{:?}", s);
    }
    assert!(SubredditState::PRIVATE.is_dark());
    assert!(SubredditState::RESTRICTED.is_dark());
    assert!(SubredditState::ARCHIVED.is_dark());
    assert!(SubredditState::OLIVER.is_dark());
    assert!(SubredditState::PUBLIC.is_light());
    assert!(SubredditState::UNKNOWN.is_light());
}

#[test]
fn state_names() {
    let names: Vec<String> = ALL.iter().map(|s| s.to_string()).collect();
    assert_eq!(names, vec!["unknown", "private", "public", "archived", "oliver", "restricted"]);
}

#[test]
fn all_lists_states_in_declaration_order() {
    assert_eq!(SubredditState::all(), ALL.to_vec());
}

#[test]
fn dark_states_in_order() {
    assert_eq!(
        SubredditState::dark_states(),
        vec![
            SubredditState::PRIVATE,
            SubredditState::ARCHIVED,
            SubredditState::OLIVER,
            SubredditState::RESTRICTED
        ]
    );
}

#[test]
fn light_states_in_order() {
    assert_eq!(SubredditState::light_states(), vec![SubredditState::UNKNOWN, SubredditState::PUBLIC]);
}

#[test]
fn state_map_pairs_each_state_with_its_name() {
    let m = SubredditState::state_map();
    assert_eq!(m.len(), 6);
    for (i, (s, name)) in m.iter().enumerate() {
        assert_eq!(*s, ALL[i]);
        assert_eq!(*name, s.to_string());
    }
}

#[test]
fn parse_reads_the_four_bulk_types() {
    assert_eq!(SubredditState::parse("public").unwrap(), SubredditState::PUBLIC);
    assert_eq!(SubredditState::parse("restricted").unwrap(), SubredditState::RESTRICTED);
    assert_eq!(SubredditState::parse("private").unwrap(), SubredditState::PRIVATE);
    assert_eq!(SubredditState::parse("archived").unwrap(), SubredditState::ARCHIVED);
}

#[test]
fn parse_refuses_other_types() {
    for t in ["Public", "user", "gold_restricted", "", "oliver", "unknown"] {
        let e = SubredditState::parse(t).unwrap_err();
        assert_eq!(e.name, t);
    }
}

#[test]
fn from_str_goes_through_parse() {
    let s: SubredditState = "archived".parse().unwrap();
    assert_eq!(s, SubredditState::ARCHIVED);
    assert!("employees_only".parse::<SubredditState>().is_err());
}

#[test]
fn order_follows_declaration() {
    assert!(SubredditState::UNKNOWN < SubredditState::PRIVATE);
    assert!(SubredditState::OLIVER < SubredditState::RESTRICTED);
}
