//! The decisions of a polling pass and of a roster refresh.
//!
//! A pass reads the stored pages, cuts them into chunks of at most
//! [`MAX_BULK_NAMES`](crate::resolver::MAX_BULK_NAMES), resolves each chunk
//! with one bulk request, and stores one [`SubredditDelta`] per page. A chunk
//! whose request fails leaves its pages as they were; the others go on.
use vstd::prelude::*;

use crate::resolver::{lookup, CuratedSet, StateTable};
use crate::roster::views_of_strings;
use crate::state::SubredditState;
use crate::subreddit::{Subreddit, SubredditDelta};
use crate::text::{lowercase, to_lowercase};

verus! {

/// How many entries of the change history are kept.
pub const HISTORY_LIMIT: usize = 10000;

/// The state a page gets in a pass: curated if its lower-cased name is
/// curated, else what the bulk response gave for it, else unknown.
pub open spec fn next_state_spec(
    lower: Seq<char>,
    table: Seq<(Seq<char>, SubredditState)>,
    curated: Seq<Seq<char>>,
) -> SubredditState {
    if curated.contains(lower) {
        SubredditState::OLIVER
    } else {
        match lookup(table, lower) {
            Some(s) => s,
            None => SubredditState::UNKNOWN,
        }
    }
}

/// The state of the page with lower-cased name `lower` after a pass.
pub fn next_state(lower: &str, table: &StateTable, curated: &CuratedSet) -> (r: SubredditState)
    ensures
        r == next_state_spec(lower@, table@, curated@),
{
    if curated.contains(lower) {
        SubredditState::OLIVER
    } else {
        match table.get(lower) {
            Some(s) => s,
            None => SubredditState::UNKNOWN,
        }
    }
}

/// A curated page is curated after the pass, whatever the bulk response said
/// of it.
pub proof fn lemma_curated_overrides(
    lower: Seq<char>,
    table: Seq<(Seq<char>, SubredditState)>,
    other: Seq<(Seq<char>, SubredditState)>,
    curated: Seq<Seq<char>>,
)
    requires
        curated.contains(lower),
    ensures
        next_state_spec(lower, table, curated) == SubredditState::OLIVER,
        next_state_spec(lower, table, curated) == next_state_spec(lower, other, curated),
{
}

/// The deltas of one chunk: for each page, in order, its stored state as the
/// previous state and the page with its state after the pass.
pub fn chunk_deltas(chunk: &[Subreddit], table: &StateTable, curated: &CuratedSet) -> (r: Vec<
    SubredditDelta,
>)
    ensures
        r@.len() == chunk@.len(),
        forall|i: int|
            0 <= i < r@.len() ==> {
                &&& (#[trigger] r@[i]).prev_state == chunk@[i].state
                &&& r@[i].subreddit.name == chunk@[i].name
                &&& r@[i].subreddit.section == chunk@[i].section
                &&& r@[i].subreddit.state == next_state_spec(
                    lowercase(chunk@[i].name@),
                    table@,
                    curated@,
                )
            },
{
    let mut r: Vec<SubredditDelta> = Vec::new();
    for i in 0..chunk.len()
        invariant
            r@.len() == i,
            forall|k: int|
                0 <= k < i ==> {
                    &&& (#[trigger] r@[k]).prev_state == chunk@[k].state
                    &&& r@[k].subreddit.name == chunk@[k].name
                    &&& r@[k].subreddit.section == chunk@[k].section
                    &&& r@[k].subreddit.state == next_state_spec(
                        lowercase(chunk@[k].name@),
                        table@,
                        curated@,
                    )
                },
    {
        let lower = to_lowercase(chunk[i].name.as_str());
        let mut delta = SubredditDelta::from_subreddit(chunk[i].copy());
        delta.subreddit.state = next_state(lower.as_str(), table, curated);
        r.push(delta);
    }
    r
}

/// `chunks` laid end to end.
pub open spec fn concat_all<A>(chunks: Seq<Seq<A>>) -> Seq<A>
    decreases chunks.len(),
{
    if chunks.len() == 0 {
        Seq::empty()
    } else {
        concat_all(chunks.drop_last()) + chunks.last()
    }
}

pub open spec fn chunk_views<A>(chunks: Seq<Vec<A>>) -> Seq<Seq<A>> {
    chunks.map_values(|c: Vec<A>| c@)
}

/// `chunks` cuts `items` into runs of `size`, the last of them possibly
/// shorter, none empty.
pub open spec fn is_chunking<A>(chunks: Seq<Seq<A>>, items: Seq<A>, size: nat) -> bool {
    &&& concat_all(chunks) == items
    &&& forall|k: int| 0 <= k < chunks.len() ==> 0 < (#[trigger] chunks[k]).len() <= size
    &&& forall|k: int| 0 <= k < chunks.len() - 1 ==> (#[trigger] chunks[k]).len() == size
}

/// Cuts the pages into chunks of `size`, in order; the last chunk may be
/// shorter.
pub fn chunk_pages(subs: &[Subreddit], size: usize) -> (r: Vec<Vec<Subreddit>>)
    requires
        size > 0,
    ensures
        is_chunking(chunk_views(r@), subs@, size as nat),
{
    let mut chunks: Vec<Vec<Subreddit>> = Vec::new();
    let mut current: Vec<Subreddit> = Vec::new();
    for i in 0..subs.len()
        invariant
            size > 0,
            current@.len() < size,
            concat_all(chunk_views(chunks@)) + current@ == subs@.take(i as int),
            forall|k: int| 0 <= k < chunks@.len() ==> (#[trigger] chunks@[k])@.len() == size,
    {
        let ghost before = chunks@;
        current.push(subs[i].copy());
        assert(subs@.take(i + 1) =~= subs@.take(i as int).push(subs@[i as int]));
        if current.len() == size {
            let full = current;
            current = Vec::new();
            chunks.push(full);
            assert(chunk_views(chunks@).drop_last() =~= chunk_views(before));
            assert(concat_all(chunk_views(chunks@)) + current@ =~= concat_all(chunk_views(before))
                + full@);
        }
    }
    assert(subs@.take(subs@.len() as int) =~= subs@);
    if current.len() > 0 {
        let ghost before = chunks@;
        let last = current;
        chunks.push(last);
        assert(chunk_views(chunks@).drop_last() =~= chunk_views(before));
    } else {
        assert(current@ =~= Seq::<Subreddit>::empty());
        assert(concat_all(chunk_views(chunks@)) + current@ =~= concat_all(chunk_views(chunks@)));
    }
    chunks
}

/// What follows a pass.
#[derive(Clone, Copy, Debug, PartialEq, Eq, Structural)]
pub enum AfterPass {
    /// Wait for the next tick and run another pass.
    WaitForTick,
    /// The single pass is done.
    Stop,
    /// The single pass failed: the run fails with its error.
    Fail,
}

/// A polling run with a period goes on after every pass, a failed one
/// included, whose error is only logged; a run without a period stops after
/// its one pass, and fails when the pass failed.
pub open spec fn after_pass_spec(periodic: bool, pass_ok: bool) -> AfterPass {
    if periodic {
        AfterPass::WaitForTick
    } else if pass_ok {
        AfterPass::Stop
    } else {
        AfterPass::Fail
    }
}

/// Decides what follows a pass.
pub fn after_pass(periodic: bool, pass_ok: bool) -> (r: AfterPass)
    ensures
        r == after_pass_spec(periodic, pass_ok),
{
    if periodic {
        AfterPass::WaitForTick
    } else if pass_ok {
        AfterPass::Stop
    } else {
        AfterPass::Fail
    }
}

/// How many of `outcomes` are failures.
pub open spec fn count_failed(outcomes: Seq<bool>) -> nat
    decreases outcomes.len(),
{
    if outcomes.len() == 0 {
        0
    } else {
        count_failed(outcomes.drop_last()) + if outcomes.last() {
            0nat
        } else {
            1nat
        }
    }
}

/// The share of chunks that succeeded, in hundredths of a percent, rounded
/// to the nearest (a half rounds up).
pub open spec fn success_rate_spec(total: nat, failed: nat) -> nat {
    ((((total - failed) as nat) * 20000 + total) / (2 * total)) as nat
}

/// The outcome of the chunks of one pass.
#[derive(Clone, Copy, Debug)]
pub struct PassSummary {
    total: usize,
    failed: usize,
}

impl View for PassSummary {
    /// The number of chunks, and of those that failed.
    type V = (nat, nat);

    closed spec fn view(&self) -> (nat, nat) {
        (self.total as nat, self.failed as nat)
    }
}

impl PassSummary {
    #[verifier::type_invariant]
    spec fn failed_within_total(self) -> bool {
        self.failed <= self.total
    }

    /// A pass with no chunk yet.
    pub fn new() -> (r: PassSummary)
        ensures
            r@ == (0nat, 0nat),
    {
        PassSummary { total: 0, failed: 0 }
    }

    /// Counts one more chunk, failed unless `ok`.
    pub fn record(&mut self, ok: bool)
        requires
            old(self)@.0 < usize::MAX,
        ensures
            final(self)@.0 == old(self)@.0 + 1,
            final(self)@.1 == old(self)@.1 + if ok {
                0nat
            } else {
                1nat
            },
    {
        proof {
            use_type_invariant(&*self);
        }
        self.total = self.total + 1;
        if !ok {
            self.failed = self.failed + 1;
        }
    }

    /// The summary of chunks with these outcomes, `true` for success.
    pub fn from_outcomes(outcomes: &[bool]) -> (r: PassSummary)
        ensures
            r@ == (outcomes@.len(), count_failed(outcomes@)),
    {
        let mut r = PassSummary::new();
        for i in 0..outcomes.len()
            invariant
                i <= outcomes@.len(),
                outcomes@.len() <= usize::MAX,
                r@ == (i as nat, count_failed(outcomes@.take(i as int))),
        {
            assert(outcomes@.take(i + 1).drop_last() =~= outcomes@.take(i as int));
            r.record(outcomes[i]);
        }
        assert(outcomes@.take(outcomes@.len() as int) =~= outcomes@);
        r
    }

    /// The number of chunks.
    pub fn total_subs(&self) -> (r: usize)
        ensures
            r == self@.0,
    {
        self.total
    }

    /// The number of chunks that failed.
    pub fn failed_subs(&self) -> (r: usize)
        ensures
            r == self@.1,
            r <= self@.0,
    {
        proof {
            use_type_invariant(self);
        }
        self.failed
    }

    /// The share of chunks that succeeded, in hundredths of a percent; none
    /// when there was no chunk.
    pub fn success_rate(&self) -> (r: Option<u64>)
        ensures
            self@.0 == 0 ==> r is None,
            self@.0 > 0 ==> r == Some(success_rate_spec(self@.0, self@.1) as u64),
            r matches Some(v) ==> v <= 10000,
    {
        proof {
            use_type_invariant(self);
        }
        if self.total == 0 {
            return None;
        }
        let ok = (self.total - self.failed) as u128;
        let total = self.total as u128;
        assert(ok * 20000 <= 0xffff_ffff_ffff_ffffu128 * 20000) by (nonlinear_arith)
            requires
                ok <= 0xffff_ffff_ffff_ffffu128,
        ;
        let num = ok * 20000 + total;
        let den = 2 * total;
        let q = num / den;
        assert(q <= 10000) by (nonlinear_arith)
            requires
                ok <= total,
                total > 0,
                num == ok * 20000 + total,
                den == 2 * total,
                q == num / den,
        ;
        Some(q as u64)
    }
}

/// The first of `existing` named `name`.
pub open spec fn find_named(existing: Seq<Subreddit>, name: Seq<char>) -> Option<Subreddit>
    decreases existing.len(),
{
    if existing.len() == 0 {
        None
    } else if existing[0].name@ == name {
        Some(existing[0])
    } else {
        find_named(existing.skip(1), name)
    }
}

/// What a listed page makes stored: itself when no stored page has its name;
/// the stored page moved to the listed section when the sections differ;
/// nothing otherwise. The stored state is kept.
pub open spec fn upsert_for(listed: Subreddit, existing: Seq<Subreddit>) -> Option<Subreddit> {
    match find_named(existing, listed.name@) {
        Some(e) => if e.section@ != listed.section@ {
            Some(Subreddit { name: e.name, section: listed.section, state: e.state })
        } else {
            None
        },
        None => Some(listed),
    }
}

/// The pages to store after a roster listing, in listing order.
pub open spec fn roster_upserts_spec(listed: Seq<Subreddit>, existing: Seq<Subreddit>) -> Seq<
    Subreddit,
>
    decreases listed.len(),
{
    if listed.len() == 0 {
        Seq::empty()
    } else {
        let rest = roster_upserts_spec(listed.drop_last(), existing);
        match upsert_for(listed.last(), existing) {
            Some(u) => rest.push(u),
            None => rest,
        }
    }
}

fn find_stored(existing: &[Subreddit], name: &String) -> (r: Option<usize>)
    ensures
        match r {
            Some(j) => j < existing@.len() && find_named(existing@, name@) == Some(existing@[j as int]),
            None => find_named(existing@, name@) is None,
        },
{
    assert(existing@.skip(0) =~= existing@);
    for j in 0..existing.len()
        invariant
            find_named(existing@, name@) == find_named(existing@.skip(j as int), name@),
    {
        assert(existing@.skip(j as int)[0] == existing@[j as int]);
        if existing[j].name == *name {
            return Some(j);
        }
        assert(existing@.skip(j as int).skip(1) =~= existing@.skip(j + 1));
    }
    None
}

/// The pages to store after a roster listing: each listed page that is not
/// stored yet, and each stored page whose section the listing changed. No
/// stored page loses its state, and none is removed.
pub fn roster_upserts(listed: &[Subreddit], existing: &[Subreddit]) -> (r: Vec<Subreddit>)
    ensures
        r@ == roster_upserts_spec(listed@, existing@),
{
    let mut r: Vec<Subreddit> = Vec::new();
    for i in 0..listed.len()
        invariant
            r@ == roster_upserts_spec(listed@.take(i as int), existing@),
    {
        let ghost before = r@;
        assert(listed@.take(i + 1).drop_last() =~= listed@.take(i as int));
        let sub = &listed[i];
        match find_stored(existing, &sub.name) {
            Some(j) => {
                if existing[j].section != sub.section {
                    r.push(
                        Subreddit {
                            name: existing[j].name.clone(),
                            section: sub.section.clone(),
                            state: existing[j].state,
                        },
                    );
                }
            },
            None => {
                r.push(sub.copy());
            },
        }
    }
    assert(listed@.take(listed@.len() as int) =~= listed@);
    r
}

proof fn lemma_found_has_name(existing: Seq<Subreddit>, name: Seq<char>)
    ensures
        find_named(existing, name) matches Some(e) ==> e.name@ == name,
    decreases existing.len(),
{
    if existing.len() > 0 && existing[0].name@ != name {
        lemma_found_has_name(existing.skip(1), name);
    }
}

/// A roster refresh stores a page that was stored before with the state it
/// had, and stores every other page as listed.
pub proof fn lemma_refresh_keeps_states(listed: Seq<Subreddit>, existing: Seq<Subreddit>)
    ensures
        forall|i: int|
            0 <= i < roster_upserts_spec(listed, existing).len() ==> match find_named(
                existing,
                (#[trigger] roster_upserts_spec(listed, existing)[i]).name@,
            ) {
                Some(e) => roster_upserts_spec(listed, existing)[i].state == e.state,
                None => listed.contains(roster_upserts_spec(listed, existing)[i]),
            },
    decreases listed.len(),
{
    if listed.len() > 0 {
        let d = listed.drop_last();
        let l = listed.last();
        lemma_refresh_keeps_states(d, existing);
        lemma_found_has_name(existing, l.name@);
        let rest = roster_upserts_spec(d, existing);
        let r = roster_upserts_spec(listed, existing);
        assert forall|i: int| 0 <= i < r.len() implies match find_named(
            existing,
            (#[trigger] r[i]).name@,
        ) {
            Some(e) => r[i].state == e.state,
            None => listed.contains(r[i]),
        } by {
            if i < rest.len() {
                assert(r[i] == rest[i]);
                if find_named(existing, rest[i].name@) is None {
                    let k = choose|k: int| 0 <= k < d.len() && d[k] == rest[i];
                    assert(listed[k] == d[k]);
                }
            } else {
                assert(listed[listed.len() - 1] == l);
            }
        }
    }
}

/// The size tiers shown when no section list was stored.
pub open spec fn default_sections_spec() -> Seq<Seq<char>> {
    seq![
        "40+ million"@,
        "30+ million"@,
        "20+ million"@,
        "10+ million"@,
        "5+ million"@,
        "1+ million"@,
        "500k+"@,
        "250k+"@,
        "100k+"@,
        "50k+"@,
        "5k+"@,
        "5k and below"@,
        "1k+"@,
        "1k and below"@,
    ]
}

/// The size tiers shown when no section list was stored.
pub fn default_sections() -> (r: Vec<String>)
    ensures
        views_of_strings(r@) == default_sections_spec(),
{
    let r = vec![
        String::from_str("40+ million"),
        String::from_str("30+ million"),
        String::from_str("20+ million"),
        String::from_str("10+ million"),
        String::from_str("5+ million"),
        String::from_str("1+ million"),
        String::from_str("500k+"),
        String::from_str("250k+"),
        String::from_str("100k+"),
        String::from_str("50k+"),
        String::from_str("5k+"),
        String::from_str("5k and below"),
        String::from_str("1k+"),
        String::from_str("1k and below"),
    ];
    assert(views_of_strings(r@) =~= default_sections_spec());
    r
}

/// The stored section list, or the default one when none was stored.
pub fn sections_or_default(stored: Option<Vec<String>>) -> (r: Vec<String>)
    ensures
        match stored {
            Some(v) => r == v,
            None => views_of_strings(r@) == default_sections_spec(),
        },
{
    match stored {
        Some(v) => v,
        None => default_sections(),
    }
}

} // verus!
