//! The roster of tracked pages, read from the text of the moderators' index
//! page.
//!
//! The text is read line by line, each line with white space taken off both
//! ends. A line that starts with `##`, holds a `:` and does not hold `Please`
//! opens a section, named by the line without `##` and `:`. A line that starts
//! with `r/` lists a page in the open section. A section enters the list of
//! sections when its first page is listed.
use vstd::prelude::*;

use crate::state::SubredditState;
use crate::subreddit::{Subreddit, SubredditView};
use crate::text::{
    chars_of, has_infix, has_prefix, lemma_filter_prefix_step, range_has_infix, range_has_prefix,
    string_of, trim_bounds, trim_spec,
};

verus! {

/// The state of a scan of the roster text after some lines.
pub struct RosterScan {
    /// Name of the section opened last.
    pub current: Seq<char>,
    /// The section opened last has no page listed yet.
    pub pending: bool,
    pub sections: Seq<Seq<char>>,
    pub subs: Seq<SubredditView>,
}

pub open spec fn roster_start() -> RosterScan {
    RosterScan { current: Seq::empty(), pending: false, sections: Seq::empty(), subs: Seq::empty() }
}

/// `s` with every `##` taken off, matched left to right as `str::replace`
/// matches it.
pub open spec fn drop_double_hash(s: Seq<char>) -> Seq<char>
    decreases s.len(),
{
    if s.len() >= 2 && s[0] == '#' && s[1] == '#' {
        drop_double_hash(s.skip(2))
    } else if s.len() > 0 {
        seq![s[0]] + drop_double_hash(s.skip(1))
    } else {
        s
    }
}

pub open spec fn not_colon(c: char) -> bool {
    c != ':'
}

/// The name of the section that line `t` opens.
pub open spec fn section_label(t: Seq<char>) -> Seq<char> {
    trim_spec(drop_double_hash(t).filter(|c: char| not_colon(c)))
}

/// Line `t` opens a section.
pub open spec fn opens_section(t: Seq<char>) -> bool {
    &&& has_prefix(t, seq!['#', '#'])
    &&& !has_infix(t, seq!['P', 'l', 'e', 'a', 's', 'e'])
    &&& has_infix(t, seq![':'])
}

/// Line `t` lists a page.
pub open spec fn lists_page(t: Seq<char>) -> bool {
    has_prefix(t, seq!['r', '/'])
}

/// The scan after the trimmed line `t`.
pub open spec fn roster_step(st: RosterScan, t: Seq<char>) -> RosterScan {
    if opens_section(t) {
        RosterScan { current: section_label(t), pending: true, ..st }
    } else if lists_page(t) {
        RosterScan {
            current: st.current,
            pending: false,
            sections: if st.pending {
                st.sections.push(st.current)
            } else {
                st.sections
            },
            subs: st.subs.push(
                SubredditView { name: t, section: st.current, state: SubredditState::UNKNOWN },
            ),
        }
    } else {
        st
    }
}

/// The scan of `rest`, where `line` holds what was read of the line that
/// `rest` continues. Lines end at `\n`; each is trimmed before its step, which
/// also takes off the `\r` of a `\r\n`.
pub open spec fn scan_text(st: RosterScan, line: Seq<char>, rest: Seq<char>) -> RosterScan
    decreases rest.len(),
{
    if rest.len() == 0 {
        roster_step(st, trim_spec(line))
    } else if rest[0] == '\n' {
        scan_text(roster_step(st, trim_spec(line)), Seq::empty(), rest.skip(1))
    } else {
        scan_text(st, line.push(rest[0]), rest.skip(1))
    }
}

/// The sections and pages that the roster text lists.
pub open spec fn parse_roster_spec(text: Seq<char>) -> RosterScan {
    scan_text(roster_start(), Seq::empty(), text)
}

pub open spec fn views_of_strings(v: Seq<String>) -> Seq<Seq<char>> {
    v.map_values(|s: String| s@)
}

pub open spec fn views_of_subs(v: Seq<Subreddit>) -> Seq<SubredditView> {
    v.map_values(|s: Subreddit| s@)
}

struct RosterBuilder {
    current: String,
    pending: bool,
    sections: Vec<String>,
    subs: Vec<Subreddit>,
}

impl View for RosterBuilder {
    type V = RosterScan;

    closed spec fn view(&self) -> RosterScan {
        RosterScan {
            current: self.current@,
            pending: self.pending,
            sections: views_of_strings(self.sections@),
            subs: views_of_subs(self.subs@),
        }
    }
}

/// The section name that line `cs[lo..hi]` gives.
fn section_label_of(cs: &[char], lo: usize, hi: usize) -> (r: String)
    requires
        lo <= hi <= cs@.len(),
    ensures
        r@ == section_label(cs@.subrange(lo as int, hi as int)),
{
    let ghost t = cs@.subrange(lo as int, hi as int);
    let mut h: Vec<char> = Vec::new();
    let mut i: usize = lo;
    while i < hi
        invariant
            lo <= i <= hi <= cs@.len(),
            t == cs@.subrange(lo as int, hi as int),
            drop_double_hash(t) == h@ + drop_double_hash(cs@.subrange(i as int, hi as int)),
        decreases hi - i,
    {
        let ghost rest = cs@.subrange(i as int, hi as int);
        if hi - i >= 2 && cs[i] == '#' && cs[i + 1] == '#' {
            assert(rest.skip(2) =~= cs@.subrange(i + 2, hi as int));
            i = i + 2;
        } else {
            let ghost before = h@;
            assert(rest.skip(1) =~= cs@.subrange(i + 1, hi as int));
            assert(drop_double_hash(rest) == seq![cs@[i as int]] + drop_double_hash(rest.skip(1)));
            h.push(cs[i]);
            assert(h@ + drop_double_hash(cs@.subrange(i + 1, hi as int)) =~= before
                + drop_double_hash(rest));
            i = i + 1;
        }
    }
    assert(cs@.subrange(hi as int, hi as int) =~= Seq::<char>::empty());
    assert(h@ =~= drop_double_hash(t));
    let mut g: Vec<char> = Vec::new();
    for k in 0..h.len()
        invariant
            g@ == h@.take(k as int).filter(|c: char| not_colon(c)),
    {
        proof {
            lemma_filter_prefix_step(h@, k as int, |c: char| not_colon(c));
        }
        if h[k] != ':' {
            g.push(h[k]);
        }
    }
    assert(h@.take(h@.len() as int) =~= h@);
    assert(g@.subrange(0, g@.len() as int) =~= g@);
    let (a, b) = trim_bounds(&g, 0, g.len());
    string_of(&g, a, b)
}

impl RosterBuilder {
    /// Takes in the line `cs[lo..hi]`.
    fn step(&mut self, cs: &[char], lo: usize, hi: usize)
        requires
            lo <= hi <= cs@.len(),
        ensures
            final(self)@ == roster_step(old(self)@, trim_spec(cs@.subrange(lo as int, hi as int))),
    {
        let hashes = vec!['#', '#'];
        let please = vec!['P', 'l', 'e', 'a', 's', 'e'];
        let colon = vec![':'];
        let listed = vec!['r', '/'];
        assert(hashes@ =~= seq!['#', '#']);
        assert(please@ =~= seq!['P', 'l', 'e', 'a', 's', 'e']);
        assert(colon@ =~= seq![':']);
        assert(listed@ =~= seq!['r', '/']);
        let (a, b) = trim_bounds(cs, lo, hi);
        let ghost t = cs@.subrange(a as int, b as int);
        if range_has_prefix(cs, a, b, &hashes) && !range_has_infix(cs, a, b, &please)
            && range_has_infix(cs, a, b, &colon) {
            self.current = section_label_of(cs, a, b);
            self.pending = true;
        } else if range_has_prefix(cs, a, b, &listed) {
            if self.pending {
                let ghost before = self.sections@;
                self.sections.push(self.current.clone());
                assert(views_of_strings(self.sections@) =~= views_of_strings(before).push(
                    self.current@,
                ));
                self.pending = false;
            }
            let ghost before = self.subs@;
            let sub = Subreddit {
                name: string_of(cs, a, b),
                section: self.current.clone(),
                state: SubredditState::UNKNOWN,
            };
            self.subs.push(sub);
            assert(views_of_subs(self.subs@) =~= views_of_subs(before).push(
                SubredditView { name: t, section: self.current@, state: SubredditState::UNKNOWN },
            ));
        }
    }
}

/// Reads the roster text: the sections that have at least one page, in the
/// order they first had one, and every listed page with its section and the
/// state `UNKNOWN`.
pub fn parse_roster(text: &str) -> (r: (Vec<String>, Vec<Subreddit>))
    ensures
        views_of_strings(r.0@) == parse_roster_spec(text@).sections,
        views_of_subs(r.1@) == parse_roster_spec(text@).subs,
{
    let cs = chars_of(text);
    let n = cs.len();
    let mut b = RosterBuilder {
        current: String::new(),
        pending: false,
        sections: Vec::new(),
        subs: Vec::new(),
    };
    assert(b@.sections =~= Seq::<Seq<char>>::empty());
    assert(b@.subs =~= Seq::<SubredditView>::empty());
    assert(cs@.subrange(0, n as int) =~= cs@);
    assert(cs@.subrange(0, 0) =~= Seq::<char>::empty());
    let mut ls: usize = 0;
    let mut i: usize = 0;
    while i < n
        invariant
            n == cs@.len(),
            cs@ == text@,
            ls <= i <= n,
            parse_roster_spec(text@) == scan_text(
                b@,
                cs@.subrange(ls as int, i as int),
                cs@.subrange(i as int, n as int),
            ),
        decreases n - i,
    {
        let ghost rest = cs@.subrange(i as int, n as int);
        assert(rest.skip(1) =~= cs@.subrange(i + 1, n as int));
        if cs[i] == '\n' {
            b.step(&cs, ls, i);
            assert(cs@.subrange(i + 1, i + 1) =~= Seq::<char>::empty());
            ls = i + 1;
        } else {
            assert(cs@.subrange(ls as int, i as int).push(cs@[i as int]) =~= cs@.subrange(
                ls as int,
                i + 1,
            ));
        }
        i = i + 1;
    }
    b.step(&cs, ls, n);
    (b.sections, b.subs)
}

} // verus!
