use reddark::updater::{
    after_pass, AfterPass,
    chunk_deltas, chunk_pages, default_sections, next_state, roster_upserts, sections_or_default,
    HISTORY_LIMIT,
};
use reddark::{CuratedSet, PassSummary, StateTable, Subreddit, SubredditState};

fn page(name: &str, section: &str, state: SubredditState) -> Subreddit {
    Subreddit { name: name.to_string(), section: section.to_string(), state }
}

fn table(entries: &[(&str, SubredditState)]) -> StateTable {
    let mut t = StateTable::new();
    for (k, v) in entries {
        t.insert(k.to_string(), *v);
    }
    t
}

#[test]
fn curated_name_is_curated_whatever_the_bulk_state() {
    let curated = CuratedSet::from_names(&["r/Pics".to_string()]);
    for s in SubredditState::all() {
        let t = table(&[("r/pics", s)]);
        assert_eq!(next_state("r/pics", &t, &curated), SubredditState::OLIVER);
    }
    assert_eq!(next_state("r/pics", &StateTable::new(), &curated), SubredditState::OLIVER);
}

#[test]
fn next_state_from_table_or_unknown() {
    let curated = CuratedSet::new();
    let t = table(&[("r/a", SubredditState::PRIVATE)]);
    assert_eq!(next_state("r/a", &t, &curated), SubredditState::PRIVATE);
    assert_eq!(next_state("r/b", &t, &curated), SubredditState::UNKNOWN);
}

#[test]
fn chunk_deltas_look_up_lower_cased_names() {
    let chunk = vec![
        page("r/Foo", "10k+", SubredditState::PUBLIC),
        page("r/Pics", "40+ million", SubredditState::PRIVATE),
        page("r/gone", "1k+", SubredditState::RESTRICTED),
    ];
    let t = table(&[("r/foo", SubredditState::PRIVATE), ("r/pics", SubredditState::PUBLIC)]);
    let curated = CuratedSet::from_names(&["r/PICS".to_string()]);
    let deltas = chunk_deltas(&chunk, &t, &curated);
    assert_eq!(deltas.len(), 3);
    let got: Vec<(SubredditState, &str, &str, SubredditState)> = deltas
        .iter()
        .map(|d| (d.prev_state, d.subreddit.name.as_str(), d.subreddit.section.as_str(), d.subreddit.state))
        .collect();
    assert_eq!(
        got,
        vec![
            (SubredditState::PUBLIC, "r/Foo", "10k+", SubredditState::PRIVATE),
            (SubredditState::PRIVATE, "r/Pics", "40+ million", SubredditState::OLIVER),
            (SubredditState::RESTRICTED, "r/gone", "1k+", SubredditState::UNKNOWN),
        ]
    );
    assert!(deltas[0].publishes());
}

#[test]
fn pages_are_cut_into_chunks_of_a_hundred() {
    let subs: Vec<Subreddit> =
        (0..250).map(|i| page(&format!("r/s{i}"), "x", SubredditState::UNKNOWN)).collect();
    let chunks = chunk_pages(&subs, 100);
    assert_eq!(chunks.iter().map(|c| c.len()).collect::<Vec<_>>(), vec![100, 100, 50]);
    let flat: Vec<Subreddit> = chunks.into_iter().flatten().collect();
    assert_eq!(flat, subs);
}

#[test]
fn chunking_edge_cases() {
    assert!(chunk_pages(&[], 100).is_empty());
    let subs: Vec<Subreddit> =
        (0..200).map(|i| page(&format!("r/s{i}"), "x", SubredditState::UNKNOWN)).collect();
    assert_eq!(chunk_pages(&subs, 100).len(), 2);
    assert_eq!(chunk_pages(&subs[..1], 100).len(), 1);
}

#[test]
fn one_failed_chunk_of_five() {
    let summary = PassSummary::from_outcomes(&[true, true, false, true, true]);
    assert_eq!(summary.failed_subs(), 1);
    assert_eq!(summary.total_subs(), 5);
    assert_eq!(summary.success_rate(), Some(8000));
}

#[test]
fn success_rate_rounds_to_hundredths() {
    assert_eq!(PassSummary::from_outcomes(&[true, false, false]).success_rate(), Some(3333));
    assert_eq!(PassSummary::from_outcomes(&[true, true, false]).success_rate(), Some(6667));
    assert_eq!(PassSummary::from_outcomes(&[true]).success_rate(), Some(10000));
    assert_eq!(PassSummary::from_outcomes(&[false]).success_rate(), Some(0));
}

#[test]
fn no_chunk_has_no_success_rate() {
    let summary = PassSummary::new();
    assert_eq!(summary.total_subs(), 0);
    assert_eq!(summary.success_rate(), None);
}

#[test]
fn record_counts_outcomes() {
    let mut summary = PassSummary::new();
    summary.record(true);
    summary.record(false);
    assert_eq!((summary.total_subs(), summary.failed_subs()), (2, 1));
}

#[test]
fn roster_refresh_adds_new_and_moves_sections() {
    let existing = vec![
        page("r/a", "10k+", SubredditState::PRIVATE),
        page("r/b", "5k+", SubredditState::PUBLIC),
    ];
    let listed = vec![
        page("r/a", "20k+", SubredditState::UNKNOWN),
        page("r/b", "5k+", SubredditState::UNKNOWN),
        page("r/c", "1k+", SubredditState::UNKNOWN),
    ];
    let ups = roster_upserts(&listed, &existing);
    assert_eq!(
        ups,
        vec![page("r/a", "20k+", SubredditState::PRIVATE), page("r/c", "1k+", SubredditState::UNKNOWN)]
    );
}

#[test]
fn roster_refresh_matches_names_exactly() {
    let existing = vec![page("r/A", "x", SubredditState::PRIVATE)];
    let listed = vec![page("r/a", "x", SubredditState::UNKNOWN)];
    assert_eq!(roster_upserts(&listed, &existing), listed);
    assert!(roster_upserts(&[], &existing).is_empty());
}

#[test]
fn default_sections_are_the_size_tiers() {
    let d = default_sections();
    assert_eq!(d.len(), 14);
    assert_eq!(d[0], "40+ million");
    assert_eq!(d[13], "1k and below");
    assert_eq!(sections_or_default(None), d);
    assert_eq!(sections_or_default(Some(vec!["a".to_string()])), vec!["a".to_string()]);
}

#[test]
fn history_keeps_ten_thousand() {
    assert_eq!(HISTORY_LIMIT, 10000);
}

#[test]
fn what_follows_a_pass() {
    assert_eq!(after_pass(true, true), AfterPass::WaitForTick);
    assert_eq!(after_pass(true, false), AfterPass::WaitForTick);
    assert_eq!(after_pass(false, true), AfterPass::Stop);
    assert_eq!(after_pass(false, false), AfterPass::Fail);
}
