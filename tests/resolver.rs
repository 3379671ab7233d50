use reddark::resolver::{
    about_request, bulk_request, curated_names, parse_bulk_response, roster_from_index,
    roster_request, state_from_about, states_from_bulk_response, subreddit_type_state,
    MAX_BULK_NAMES,
};
use reddark::{CuratedSet, JsonValue, ResolveError, StateTable, SubredditState};

fn s(t: &str) -> JsonValue {
    JsonValue::String(t.to_string())
}

fn obj(members: Vec<(&str, JsonValue)>) -> JsonValue {
    JsonValue::Object(members.into_iter().map(|(k, v)| (k.to_string(), v)).collect())
}

fn child(name: &str, kind: &str) -> JsonValue {
    obj(vec![(
        "data",
        obj(vec![("display_name_prefixed", s(name)), ("subreddit_type", s(kind))]),
    )])
}

fn bulk(children: Vec<JsonValue>) -> JsonValue {
    obj(vec![("kind", s("Listing")), ("data", obj(vec![("children", JsonValue::Array(children))]))])
}

#[test]
fn about_request_path() {
    let r = about_request("r/foo");
    assert_eq!(r.path, "r/foo/about.json");
    assert!(r.query.is_none());
}

#[test]
fn about_reason_private_or_banned_is_private() {
    assert_eq!(state_from_about(&obj(vec![("reason", s("private"))])), SubredditState::PRIVATE);
    assert_eq!(state_from_about(&obj(vec![("reason", s("banned"))])), SubredditState::PRIVATE);
}

#[test]
fn about_other_reason_without_data_is_unknown() {
    assert_eq!(state_from_about(&obj(vec![("reason", s("quarantined"))])), SubredditState::UNKNOWN);
    assert_eq!(
        state_from_about(&obj(vec![("reason", JsonValue::Number("3".to_string()))])),
        SubredditState::UNKNOWN
    );
}

#[test]
fn about_other_reason_falls_through_to_data() {
    let about = obj(vec![
        ("reason", s("quarantined")),
        ("data", obj(vec![("subreddit_type", s("restricted"))])),
    ]);
    assert_eq!(state_from_about(&about), SubredditState::RESTRICTED);
    let about = obj(vec![("reason", s("quarantined")), ("data", obj(vec![("subreddit_type", s("public"))]))]);
    assert_eq!(state_from_about(&about), SubredditState::PUBLIC);
    let about = obj(vec![("reason", JsonValue::Null), ("data", obj(vec![]))]);
    assert_eq!(state_from_about(&about), SubredditState::PUBLIC);
}

#[test]
fn about_restricted_type_in_any_case() {
    let about = obj(vec![("data", obj(vec![("subreddit_type", s("Restricted"))]))]);
    assert_eq!(state_from_about(&about), SubredditState::RESTRICTED);
    let about = obj(vec![("data", obj(vec![("subreddit_type", s("restricted"))]))]);
    assert_eq!(state_from_about(&about), SubredditState::RESTRICTED);
}

#[test]
fn about_other_data_is_public() {
    let about = obj(vec![("data", obj(vec![("subreddit_type", s("public"))]))]);
    assert_eq!(state_from_about(&about), SubredditState::PUBLIC);
    let about = obj(vec![("data", obj(vec![("title", s("x"))]))]);
    assert_eq!(state_from_about(&about), SubredditState::PUBLIC);
    let about = obj(vec![("data", JsonValue::Null)]);
    assert_eq!(state_from_about(&about), SubredditState::PUBLIC);
}

#[test]
fn about_without_reason_or_data_is_unknown() {
    assert_eq!(state_from_about(&obj(vec![])), SubredditState::UNKNOWN);
    assert_eq!(state_from_about(&JsonValue::Array(vec![])), SubredditState::UNKNOWN);
}

#[test]
fn reason_wins_over_data() {
    let about = obj(vec![
        ("data", obj(vec![("subreddit_type", s("restricted"))])),
        ("reason", s("private")),
    ]);
    assert_eq!(state_from_about(&about), SubredditState::PRIVATE);
}

#[test]
fn upper_cased_type_state() {
    assert_eq!(subreddit_type_state("RESTRICTED"), SubredditState::RESTRICTED);
    assert_eq!(subreddit_type_state("restricted"), SubredditState::PUBLIC);
    assert_eq!(subreddit_type_state("PRIVATE"), SubredditState::PUBLIC);
}

#[test]
fn bulk_request_with_101_names_is_refused() {
    let names: Vec<String> = (0..101).map(|i| format!("r/sub{i}")).collect();
    match bulk_request(&names) {
        Err(ResolveError::TooManyItems { count }) => assert_eq!(count, 101),
        other => panic!("unexpected {:?}", other),
    }
}

#[test]
fn bulk_request_with_100_names_is_built() {
    let names: Vec<String> = (0..MAX_BULK_NAMES).map(|i| format!("r/sub{i}")).collect();
    let req = bulk_request(&names).unwrap();
    assert_eq!(req.path, "api/info.json");
    let q = req.query.unwrap();
    assert_eq!(q.len(), 1);
    assert_eq!(q[0].0, "sr_name");
    assert_eq!(q[0].1.split(',').count(), 100);
    assert!(q[0].1.starts_with("sub0,sub1,"));
}

#[test]
fn bulk_request_strips_prefixes_and_white_space() {
    let names = vec!["r/foo".to_string(), " r/Bar ".to_string(), "r/r/baz".to_string(), "qux \t".to_string()];
    let q = bulk_request(&names).unwrap().query.unwrap();
    assert_eq!(q[0].1, "foo,r/Bar,baz,qux");
}

#[test]
fn bulk_request_with_no_names() {
    let q = bulk_request(&[]).unwrap().query.unwrap();
    assert_eq!(q[0].1, "");
}

#[test]
fn bulk_response_gives_each_child() {
    let resp = bulk(vec![
        child("r/Foo", "public"),
        child("r/bar", "private"),
        child("r/baz", "restricted"),
        child("r/qux", "archived"),
    ]);
    let entries = parse_bulk_response(&resp).unwrap();
    assert_eq!(
        entries,
        vec![
            ("r/Foo".to_string(), SubredditState::PUBLIC),
            ("r/bar".to_string(), SubredditState::PRIVATE),
            ("r/baz".to_string(), SubredditState::RESTRICTED),
            ("r/qux".to_string(), SubredditState::ARCHIVED),
        ]
    );
}

#[test]
fn bulk_response_unknown_type_fails_whole_call() {
    let resp = bulk(vec![child("r/foo", "public"), child("r/bar", "gold_restricted"), child("r/baz", "public")]);
    match parse_bulk_response(&resp) {
        Err(ResolveError::UnknownState { name }) => assert_eq!(name, "gold_restricted"),
        other => panic!("unexpected {:?}", other),
    }
}

#[test]
fn bulk_response_first_fault_decides() {
    let resp = bulk(vec![child("r/foo", "user"), obj(vec![("kind", s("t5"))])]);
    assert!(matches!(parse_bulk_response(&resp), Err(ResolveError::UnknownState { .. })));
    let resp = bulk(vec![obj(vec![("kind", s("t5"))]), child("r/foo", "user")]);
    assert!(matches!(parse_bulk_response(&resp), Err(ResolveError::Malformed)));
}

#[test]
fn bulk_response_without_children_is_malformed() {
    assert!(matches!(parse_bulk_response(&obj(vec![])), Err(ResolveError::Malformed)));
    let resp = obj(vec![("data", obj(vec![("children", s("none"))]))]);
    assert!(matches!(parse_bulk_response(&resp), Err(ResolveError::Malformed)));
    let resp = bulk(vec![obj(vec![("data", obj(vec![("subreddit_type", s("public"))]))])]);
    assert!(matches!(parse_bulk_response(&resp), Err(ResolveError::Malformed)));
    let resp = bulk(vec![obj(vec![(
        "data",
        obj(vec![("display_name_prefixed", s("r/a")), ("subreddit_type", JsonValue::Bool(true))]),
    )])]);
    assert!(matches!(parse_bulk_response(&resp), Err(ResolveError::Malformed)));
}

#[test]
fn bulk_states_are_keyed_by_lower_case_name() {
    let resp = bulk(vec![child("r/FooBar", "private"), child("r/baz", "public")]);
    let table = states_from_bulk_response(&resp).unwrap();
    assert_eq!(table.get("r/foobar"), Some(SubredditState::PRIVATE));
    assert_eq!(table.get("r/FooBar"), None);
    assert_eq!(table.get("r/baz"), Some(SubredditState::PUBLIC));
    assert_eq!(table.get("r/missing"), None);
}

#[test]
fn state_table_keeps_the_last_entry() {
    let mut t = StateTable::new();
    t.insert("r/a".to_string(), SubredditState::PUBLIC);
    t.insert("r/a".to_string(), SubredditState::PRIVATE);
    assert_eq!(t.get("r/a"), Some(SubredditState::PRIVATE));
    let t = StateTable::from_entries(&[
        ("r/A".to_string(), SubredditState::PUBLIC),
        ("r/a".to_string(), SubredditState::ARCHIVED),
    ]);
    assert_eq!(t.get("r/a"), Some(SubredditState::ARCHIVED));
}

#[test]
fn curated_names_are_read_as_written() {
    let doc = obj(vec![("johnOliverSubs", JsonValue::Array(vec![s("r/Pics"), s("r/gifs")]))]);
    assert_eq!(curated_names(&doc).unwrap(), vec!["r/Pics".to_string(), "r/gifs".to_string()]);
}

#[test]
fn curated_document_of_wrong_shape() {
    assert!(matches!(curated_names(&obj(vec![])), Err(ResolveError::Malformed)));
    let doc = obj(vec![("johnOliverSubs", s("r/pics"))]);
    assert!(matches!(curated_names(&doc), Err(ResolveError::Malformed)));
    let doc = obj(vec![("johnOliverSubs", JsonValue::Array(vec![s("r/pics"), JsonValue::Null]))]);
    assert!(matches!(curated_names(&doc), Err(ResolveError::Malformed)));
}

#[test]
fn curated_set_lower_cases() {
    let set = CuratedSet::from_names(&["r/Pics".to_string(), "r/GIFS".to_string()]);
    assert!(set.contains("r/pics"));
    assert!(set.contains("r/gifs"));
    assert!(!set.contains("r/Pics"));
    assert!(!set.contains("r/aww"));
    assert!(!CuratedSet::new().contains(""));
}

#[test]
fn roster_request_path() {
    let r = roster_request();
    assert_eq!(r.path, "/r/ModCoord/wiki/index.json");
    assert!(r.query.is_none());
}

#[test]
fn roster_from_index_page() {
    let text = "## 10k+:\nr/foo\nr/bar\n## 5k+:\nr/baz";
    let index = obj(vec![("data", obj(vec![("content_md", s(text))]))]);
    let (sections, subs) = roster_from_index(&index).unwrap();
    assert_eq!(sections, vec!["10k+".to_string(), "5k+".to_string()]);
    let got: Vec<(&str, &str, SubredditState)> =
        subs.iter().map(|s| (s.name.as_str(), s.section.as_str(), s.state)).collect();
    assert_eq!(
        got,
        vec![
            ("r/foo", "10k+", SubredditState::UNKNOWN),
            ("r/bar", "10k+", SubredditState::UNKNOWN),
            ("r/baz", "5k+", SubredditState::UNKNOWN),
        ]
    );
}

#[test]
fn roster_from_index_without_text() {
    assert!(matches!(roster_from_index(&obj(vec![])), Err(ResolveError::Malformed)));
    let index = obj(vec![("data", obj(vec![("content_md", JsonValue::Null)]))]);
    assert!(matches!(roster_from_index(&index), Err(ResolveError::Malformed)));
}
