//! What the display shows: the messages pushed to the live feed, and the
//! figures of the index page.
use vstd::prelude::*;

use crate::state::SubredditState;
use crate::subreddit::{Subreddit, SubredditDelta};
use crate::text::{chars_of, lemma_filter_prefix_step, to_uppercase, uppercase};

verus! {

/// A message to the clients of the live feed.
#[derive(Clone, Debug)]
pub enum PushMessage {
    /// Everything the display shows.
    CurrentStateUpdate {
        sections: Vec<String>,
        subreddits: Vec<Subreddit>,
        dark_states: Vec<SubredditState>,
        light_states: Vec<SubredditState>,
        state_map: Vec<(SubredditState, String)>,
    },
    /// One page changed state.
    Delta {
        name: String,
        section: String,
        previous_state: SubredditState,
        state: SubredditState,
    },
    /// The clients should load the page again.
    Reload {},
}

impl PushMessage {
    /// The full picture: the sections, the pages, and the state vocabulary.
    pub fn current_state(sections: Vec<String>, subreddits: Vec<Subreddit>) -> (r: PushMessage)
        ensures
            match r {
                PushMessage::CurrentStateUpdate {
                    sections: s,
                    subreddits: p,
                    dark_states: d,
                    light_states: l,
                    state_map: m,
                } => s == sections && p == subreddits && d@ == SubredditState::all_spec().filter(
                    |x: SubredditState| x.is_dark_spec(),
                ) && l@ == SubredditState::all_spec().filter(|x: SubredditState| x.is_light_spec())
                    && m@.len() == SubredditState::all_spec().len() && forall|i: int|
                    0 <= i < m@.len() ==> m@[i].0 == SubredditState::all_spec()[i] && m@[i].1@ == (
                    #[trigger] SubredditState::all_spec()[i]).name_spec(),
                _ => false,
            },
    {
        PushMessage::CurrentStateUpdate {
            sections,
            subreddits,
            dark_states: SubredditState::dark_states(),
            light_states: SubredditState::light_states(),
            state_map: SubredditState::state_map(),
        }
    }

    /// The message that announces a change.
    pub fn from_delta(delta: &SubredditDelta) -> (r: PushMessage)
        ensures
            r == (PushMessage::Delta {
                name: delta.subreddit.name,
                section: delta.subreddit.section,
                previous_state: delta.prev_state,
                state: delta.subreddit.state,
            }),
    {
        PushMessage::Delta {
            name: delta.subreddit.name.clone(),
            section: delta.subreddit.section.clone(),
            previous_state: delta.prev_state,
            state: delta.subreddit.state,
        }
    }
}

/// The pages whose state is dark.
pub open spec fn dark_pages(subs: Seq<Subreddit>) -> Seq<Subreddit> {
    subs.filter(|s: Subreddit| s.state.is_dark_spec())
}

/// How many of the pages are dark.
pub fn count_dark(subs: &[Subreddit]) -> (r: usize)
    ensures
        r == dark_pages(subs@).len(),
{
    let mut n: usize = 0;
    for i in 0..subs.len()
        invariant
            n == subs@.take(i as int).filter(|s: Subreddit| s.state.is_dark_spec()).len(),
            n <= i,
    {
        proof {
            lemma_filter_prefix_step(subs@, i as int, |s: Subreddit| s.state.is_dark_spec());
        }
        if subs[i].state.is_dark() {
            n = n + 1;
        }
    }
    assert(subs@.take(subs@.len() as int) =~= subs@);
    n
}

/// The pages listed under `section`, in order.
pub open spec fn pages_in(subs: Seq<Subreddit>, section: Seq<char>) -> Seq<Subreddit> {
    subs.filter(|s: Subreddit| s.section@ == section)
}

/// The pages listed under `section`, in order.
pub fn section_pages(subs: &[Subreddit], section: &String) -> (r: Vec<Subreddit>)
    ensures
        r@ == pages_in(subs@, section@),
{
    let mut r: Vec<Subreddit> = Vec::new();
    for i in 0..subs.len()
        invariant
            r@ == subs@.take(i as int).filter(|s: Subreddit| s.section@ == section@),
    {
        proof {
            lemma_filter_prefix_step(subs@, i as int, |s: Subreddit| s.section@ == section@);
        }
        if subs[i].section == *section {
            r.push(subs[i].copy());
        }
    }
    assert(subs@.take(subs@.len() as int) =~= subs@);
    r
}

/// `a` comes before `b` in code-point lexicographic order.
pub open spec fn sorts_before(a: Seq<char>, b: Seq<char>) -> bool
    decreases a.len(),
{
    if a.len() == 0 {
        b.len() > 0
    } else if b.len() == 0 {
        false
    } else if a[0] != b[0] {
        a[0] < b[0]
    } else {
        sorts_before(a.skip(1), b.skip(1))
    }
}

fn chars_before(a: &[char], b: &[char]) -> (r: bool)
    ensures
        r == sorts_before(a@, b@),
{
    let mut i: usize = 0;
    assert(a@.skip(0) =~= a@);
    assert(b@.skip(0) =~= b@);
    while i < a.len() && i < b.len()
        invariant
            i <= a@.len(),
            i <= b@.len(),
            sorts_before(a@, b@) == sorts_before(a@.skip(i as int), b@.skip(i as int)),
        decreases a@.len() - i,
    {
        if a[i] != b[i] {
            return a[i] < b[i];
        }
        assert(a@.skip(i as int).skip(1) =~= a@.skip(i + 1));
        assert(b@.skip(i as int).skip(1) =~= b@.skip(i + 1));
        i = i + 1;
    }
    i == a.len() && i < b.len()
}

/// `x` placed into `sorted` after every item whose key does not come after
/// its own.
pub open spec fn insert_sorted(
    sorted: Seq<(Seq<char>, Subreddit)>,
    x: (Seq<char>, Subreddit),
) -> Seq<(Seq<char>, Subreddit)>
    decreases sorted.len(),
{
    if sorted.len() > 0 && sorts_before(x.0, sorted.last().0) {
        insert_sorted(sorted.drop_last(), x).push(sorted.last())
    } else {
        sorted.push(x)
    }
}

/// `items` in the order of their keys; items with equal keys keep their
/// order.
pub open spec fn sort_keyed(items: Seq<(Seq<char>, Subreddit)>) -> Seq<(Seq<char>, Subreddit)>
    decreases items.len(),
{
    if items.len() == 0 {
        items
    } else {
        insert_sorted(sort_keyed(items.drop_last()), items.last())
    }
}

/// Each page with its upper-cased name as key.
pub open spec fn keyed_by_upper_name(pages: Seq<Subreddit>) -> Seq<(Seq<char>, Subreddit)> {
    pages.map_values(|s: Subreddit| (uppercase(s.name@), s))
}

pub open spec fn keyed_view(v: Seq<(Vec<char>, Subreddit)>) -> Seq<(Seq<char>, Subreddit)> {
    v.map_values(|e: (Vec<char>, Subreddit)| (e.0@, e.1))
}

proof fn lemma_insert_scan(s: Seq<(Seq<char>, Subreddit)>, x: (Seq<char>, Subreddit), p: int)
    requires
        0 < p <= s.len(),
        sorts_before(x.0, s[p - 1].0),
    ensures
        insert_sorted(s.take(p), x) + s.skip(p) == insert_sorted(s.take(p - 1), x) + s.skip(p - 1),
{
    assert(s.take(p).drop_last() =~= s.take(p - 1));
    assert(s.take(p).last() == s[p - 1]);
    assert(insert_sorted(s.take(p), x) == insert_sorted(s.take(p - 1), x).push(s[p - 1]));
    assert(insert_sorted(s.take(p - 1), x).push(s[p - 1]) + s.skip(p) =~= insert_sorted(
        s.take(p - 1),
        x,
    ) + s.skip(p - 1));
}

/// No two neighbours of `items` are out of key order.
pub open spec fn keys_ordered(items: Seq<(Seq<char>, Subreddit)>) -> bool {
    forall|i: int| 0 <= i < items.len() - 1 ==> !sorts_before(items[i + 1].0, #[trigger] items[i].0)
}

proof fn lemma_sorts_before_asymmetric(a: Seq<char>, b: Seq<char>)
    requires
        sorts_before(a, b),
    ensures
        !sorts_before(b, a),
    decreases a.len(),
{
    if a.len() > 0 && b.len() > 0 && a[0] == b[0] {
        lemma_sorts_before_asymmetric(a.skip(1), b.skip(1));
    }
}

proof fn lemma_insert_sorted_keeps_order(s: Seq<(Seq<char>, Subreddit)>, x: (Seq<char>, Subreddit))
    requires
        keys_ordered(s),
    ensures
        keys_ordered(insert_sorted(s, x)),
        insert_sorted(s, x).len() == s.len() + 1,
        insert_sorted(s, x).last() == x || (s.len() > 0 && insert_sorted(s, x).last() == s.last()),
    decreases s.len(),
{
    if s.len() > 0 && sorts_before(x.0, s.last().0) {
        let d = s.drop_last();
        assert(keys_ordered(d)) by {
            assert forall|i: int| 0 <= i < d.len() - 1 implies !sorts_before(
                d[i + 1].0,
                #[trigger] d[i].0,
            ) by {
                assert(d[i] == s[i] && d[i + 1] == s[i + 1]);
            }
        }
        lemma_insert_sorted_keeps_order(d, x);
        let t = insert_sorted(d, x);
        lemma_sorts_before_asymmetric(x.0, s.last().0);
        if d.len() > 0 && t.last() == d.last() {
            assert(d.last() == s[s.len() - 2]);
        }
        let r = t.push(s.last());
        assert forall|i: int| 0 <= i < r.len() - 1 implies !sorts_before(
            r[i + 1].0,
            #[trigger] r[i].0,
        ) by {
            if i < t.len() - 1 {
                assert(r[i] == t[i] && r[i + 1] == t[i + 1]);
            }
        }
    } else {
        let r = s.push(x);
        assert forall|i: int| 0 <= i < r.len() - 1 implies !sorts_before(
            r[i + 1].0,
            #[trigger] r[i].0,
        ) by {
            if i < s.len() - 1 {
                assert(r[i] == s[i] && r[i + 1] == s[i + 1]);
            }
        }
    }
}

/// Sorting by key leaves no two neighbours out of key order, and keeps the
/// number of items.
pub proof fn lemma_sort_keyed_ordered(items: Seq<(Seq<char>, Subreddit)>)
    ensures
        keys_ordered(sort_keyed(items)),
        sort_keyed(items).len() == items.len(),
    decreases items.len(),
{
    if items.len() > 0 {
        lemma_sort_keyed_ordered(items.drop_last());
        lemma_insert_sorted_keeps_order(sort_keyed(items.drop_last()), items.last());
    }
}

/// The pages in the order of their keys, each page given with its key as a
/// character sequence; pages with equal keys keep their order.
pub fn sort_keyed_pages(items: Vec<(Vec<char>, Subreddit)>) -> (r: Vec<Subreddit>)
    ensures
        r@ == sort_keyed(keyed_view(items@)).map_values(|e: (Seq<char>, Subreddit)| e.1),
{
    let ghost keyed = keyed_view(items@);
    let total = items.len();
    let mut sorted: Vec<(Vec<char>, Subreddit)> = Vec::new();
    assert(keyed.take(0) =~= Seq::<(Seq<char>, Subreddit)>::empty());
    assert(keyed_view(sorted@) =~= Seq::<(Seq<char>, Subreddit)>::empty());
    let mut source = items;
    let ghost n = keyed.len();
    assert(n == total);
    let mut rest: Vec<(Vec<char>, Subreddit)> = Vec::new();
    while source.len() > 0
        invariant
            n == keyed.len(),
            keyed_view(source@) + keyed_view(rest@).reverse() == keyed,
            keyed_view(sorted@) == Seq::<(Seq<char>, Subreddit)>::empty(),
        decreases source.len(),
    {
        let ghost before = source@;
        let ghost rbefore = rest@;
        let last = source.pop().unwrap();
        rest.push(last);
        assert(keyed_view(before) =~= keyed_view(source@).push((last.0@, last.1)));
        assert(keyed_view(rest@).reverse() =~= seq![(last.0@, last.1)] + keyed_view(
            rbefore,
        ).reverse());
        assert(keyed_view(source@) + keyed_view(rest@).reverse() =~= keyed_view(before)
            + keyed_view(rbefore).reverse());
    }
    assert(keyed_view(rest@).reverse() =~= keyed);
    let mut i: usize = 0;
    while rest.len() > 0
        invariant
            n == keyed.len(),
            n <= usize::MAX,
            i + rest@.len() == n,
            keyed_view(rest@).reverse() == keyed.skip(i as int),
            keyed_view(sorted@) == sort_keyed(keyed.take(i as int)),
        decreases rest.len(),
    {
        let ghost rbefore = rest@;
        let (key, page) = rest.pop().unwrap();
        let ghost s = keyed_view(sorted@);
        let ghost x = (key@, page);
        assert(keyed_view(rbefore) =~= keyed_view(rest@).push(x));
        assert(keyed_view(rbefore).reverse() =~= seq![x] + keyed_view(rest@).reverse());
        assert(keyed.skip(i as int)[0] == keyed[i as int]);
        assert(keyed.skip(i as int).skip(1) =~= keyed.skip(i + 1));
        assert((seq![x] + keyed_view(rest@).reverse()).skip(1) =~= keyed_view(rest@).reverse());
        assert(keyed.take(i + 1).drop_last() =~= keyed.take(i as int));
        assert(keyed.take(i + 1).last() == x);
        let mut p: usize = sorted.len();
        assert(s.take(p as int) =~= s);
        assert(s.skip(p as int) =~= Seq::<(Seq<char>, Subreddit)>::empty());
        while p > 0
            invariant
                p <= sorted@.len(),
                s == keyed_view(sorted@),
                x == (key@, page),
                insert_sorted(s, x) == insert_sorted(s.take(p as int), x) + s.skip(p as int),
            ensures
                p <= sorted@.len(),
                insert_sorted(s, x) == insert_sorted(s.take(p as int), x) + s.skip(p as int),
                p == 0 || !sorts_before(x.0, s[p - 1].0),
            decreases p,
        {
            if !chars_before(&key, &sorted[p - 1].0) {
                break;
            }
            proof {
                lemma_insert_scan(s, x, p as int);
            }
            p = p - 1;
        }
        assert(insert_sorted(s.take(p as int), x) == s.take(p as int).push(x));
        sorted.insert(p, (key, page));
        assert(keyed_view(sorted@) =~= s.take(p as int).push(x) + s.skip(p as int));
        i = i + 1;
    }
    assert(keyed.take(n as int) =~= keyed);
    let mut r: Vec<Subreddit> = Vec::new();
    for k in 0..sorted.len()
        invariant
            r@ == keyed_view(sorted@).take(k as int).map_values(|e: (Seq<char>, Subreddit)| e.1),
    {
        r.push(sorted[k].1.copy());
        assert(keyed_view(sorted@).take(k + 1).map_values(|e: (Seq<char>, Subreddit)| e.1)
            =~= keyed_view(sorted@).take(k as int).map_values(
            |e: (Seq<char>, Subreddit)| e.1,
        ).push(sorted@[k as int].1));
    }
    assert(keyed_view(sorted@).take(sorted@.len() as int) =~= keyed_view(sorted@));
    r
}

/// The pages in the order of their upper-cased names; pages whose upper-cased
/// names are equal keep their order.
pub fn sort_by_upper_name(pages: &[Subreddit]) -> (r: Vec<Subreddit>)
    ensures
        r@ == sort_keyed(keyed_by_upper_name(pages@)).map_values(
            |e: (Seq<char>, Subreddit)| e.1,
        ),
{
    let mut items: Vec<(Vec<char>, Subreddit)> = Vec::new();
    for i in 0..pages.len()
        invariant
            keyed_view(items@) == keyed_by_upper_name(pages@).take(i as int),
    {
        let upper = to_uppercase(pages[i].name.as_str());
        let key = chars_of(upper.as_str());
        let ghost before = items@;
        items.push((key, pages[i].copy()));
        assert(keyed_view(items@) =~= keyed_view(before).push((key@, pages@[i as int])));
        assert(keyed_by_upper_name(pages@).take(i + 1) =~= keyed_by_upper_name(pages@).take(
            i as int,
        ).push((uppercase(pages@[i as int].name@), pages@[i as int])));
    }
    assert(keyed_by_upper_name(pages@).take(pages@.len() as int) =~= keyed_by_upper_name(pages@));
    sort_keyed_pages(items)
}

} // verus!
