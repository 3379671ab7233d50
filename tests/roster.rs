use reddark::roster::parse_roster;
use reddark::SubredditState;

fn names_and_sections(text: &str) -> (Vec<String>, Vec<(String, String)>) {
    let (sections, subs) = parse_roster(text);
    for s in subs.iter() {
        assert_eq!(s.state, SubredditState::UNKNOWN);
    }
    (sections, subs.into_iter().map(|s| (s.name, s.section)).collect())
}

fn pairs(v: &[(&str, &str)]) -> Vec<(String, String)> {
    v.iter().map(|(a, b)| (a.to_string(), b.to_string())).collect()
}

#[test]
fn sections_and_pages_in_order() {
    let (sections, subs) = names_and_sections("## 10k+:\nr/foo\nr/bar\n## 5k+:\nr/baz\n");
    assert_eq!(sections, vec!["10k+", "5k+"]);
    assert_eq!(subs, pairs(&[("r/foo", "10k+"), ("r/bar", "10k+"), ("r/baz", "5k+")]));
}

#[test]
fn empty_text_lists_nothing() {
    let (sections, subs) = names_and_sections("");
    assert!(sections.is_empty());
    assert!(subs.is_empty());
}

#[test]
fn lines_are_trimmed_and_crlf_is_accepted() {
    let (sections, subs) = names_and_sections("  ##   40+ million:  \r\n\t r/Pics \r\n\r\nr/aww");
    assert_eq!(sections, vec!["40+ million"]);
    assert_eq!(subs, pairs(&[("r/Pics", "40+ million"), ("r/aww", "40+ million")]));
}

#[test]
fn headings_asking_please_or_without_colon_are_not_sections() {
    let text = "## 1k+:\nr/a\n## Please add yours: here\nr/b\n## Notes\nr/c";
    let (sections, subs) = names_and_sections(text);
    assert_eq!(sections, vec!["1k+"]);
    assert_eq!(subs, pairs(&[("r/a", "1k+"), ("r/b", "1k+"), ("r/c", "1k+")]));
}

#[test]
fn sections_without_pages_are_not_listed() {
    let (sections, subs) = names_and_sections("## Empty:\n## 500k+:\nr/x\n## Tail:\n");
    assert_eq!(sections, vec!["500k+"]);
    assert_eq!(subs, pairs(&[("r/x", "500k+")]));
}

#[test]
fn pages_before_any_section_have_an_empty_section() {
    let (sections, subs) = names_and_sections("r/early\n## 5k+:\nr/late");
    assert_eq!(sections, vec!["5k+"]);
    assert_eq!(subs, pairs(&[("r/early", ""), ("r/late", "5k+")]));
}

#[test]
fn section_label_drops_every_marker() {
    let (sections, _) = names_and_sections("### 5k: and: below ##:\nr/x");
    assert_eq!(sections, vec!["# 5k and below"]);
}

#[test]
fn other_lines_are_ignored() {
    let (sections, subs) = names_and_sections("# Title\n## 1k+:\n* r/not\nsee r/foo\nR/upper\nr/ok");
    assert_eq!(sections, vec!["1k+"]);
    assert_eq!(subs, pairs(&[("r/ok", "1k+")]));
}

#[test]
fn a_section_reopened_is_listed_again() {
    let (sections, _) = names_and_sections("## A:\nr/1\n## B:\nr/2\n## A:\nr/3");
    assert_eq!(sections, vec!["A", "B", "A"]);
}
