//! Community pages, and the observed changes of their state.
use vstd::prelude::*;

use crate::state::SubredditState;
use crate::text::{alphanumeric, chars_of, is_alphanumeric, push_char};

verus! {

/// A tracked community page: its display name, the roster section it is
/// listed under, and its last observed state.
#[derive(Clone, Debug, PartialEq, Eq, PartialOrd, Ord)]
pub struct Subreddit {
    pub name: String,
    pub section: String,
    pub state: SubredditState,
}

/// What a [`Subreddit`] holds, as mathematical values.
pub struct SubredditView {
    pub name: Seq<char>,
    pub section: Seq<char>,
    pub state: SubredditState,
}

impl View for Subreddit {
    type V = SubredditView;

    open spec fn view(&self) -> SubredditView {
        SubredditView { name: self.name@, section: self.section@, state: self.state }
    }
}

/// The storage key of a page name: every character that is not alphanumeric
/// becomes `_`.
pub open spec fn safe_name_spec(name: Seq<char>) -> Seq<char> {
    Seq::new(name.len(), |i: int| if alphanumeric(name[i]) { name[i] } else { '_' })
}

impl Subreddit {
    /// The key under which the page is stored. Two names that differ only in
    /// characters that are not alphanumeric share a key.
    pub fn safe_name(&self) -> (r: String)
        ensures
            r@ == safe_name_spec(self.name@),
    {
        let cs = chars_of(self.name.as_str());
        let mut r = String::new();
        for i in 0..cs.len()
            invariant
                cs@ == self.name@,
                r@ == safe_name_spec(self.name@).take(i as int),
        {
            let c = cs[i];
            let k = if is_alphanumeric(c) {
                c
            } else {
                '_'
            };
            push_char(&mut r, k);
            assert(safe_name_spec(self.name@).take(i + 1) =~= safe_name_spec(self.name@).take(
                i as int,
            ).push(k));
        }
        assert(safe_name_spec(self.name@).take(cs@.len() as int) =~= safe_name_spec(self.name@));
        r
    }

    /// A copy of the page, field for field.
    pub fn copy(&self) -> (r: Subreddit)
        ensures
            r == *self,
    {
        Subreddit { name: self.name.clone(), section: self.section.clone(), state: self.state }
    }
}

/// A point in time: whole seconds since the Unix epoch and the nanoseconds
/// past that second.
#[derive(Clone, Copy, Debug, PartialEq, Eq, Structural)]
pub struct Timestamp {
    pub seconds: i64,
    pub nanos: u32,
}

/// Relies on `chrono::Utc::now`: the current time, read as its Unix seconds
/// and the nanoseconds past them.
#[verifier::external_body]
pub(crate) fn now() -> (r: Timestamp) {
    let t = chrono::Utc::now();
    Timestamp { seconds: t.timestamp(), nanos: t.timestamp_subsec_nanos() }
}

/// One observation of a page: the state it had before, the page with the
/// state it has now, and when it was observed.
#[derive(Clone, Debug)]
pub struct SubredditDelta {
    pub prev_state: SubredditState,
    pub subreddit: Subreddit,
    pub timestamp: Timestamp,
}

/// A change is stored in the history and announced when the state changed,
/// unless it changed from `UNKNOWN` to anything but `PRIVATE`: a page seen
/// for the first time is not announced as a transition.
pub open spec fn change_is_published(prev: SubredditState, next: SubredditState) -> bool {
    prev != next && (prev != SubredditState::UNKNOWN || next == SubredditState::PRIVATE)
}

impl SubredditDelta {
    /// An observation of `value` made now, that has not changed its state yet.
    pub fn from_subreddit(value: Subreddit) -> (r: SubredditDelta)
        ensures
            r.prev_state == value.state,
            r.subreddit == value,
    {
        let timestamp = now();
        SubredditDelta { prev_state: value.state, subreddit: value, timestamp }
    }

    /// The state changed.
    pub fn is_change(&self) -> (r: bool)
        ensures
            r == (self.prev_state != self.subreddit.state),
    {
        self.prev_state != self.subreddit.state
    }

    /// Whether the change is appended to the history and published; the page
    /// itself is stored in any case.
    pub fn publishes(&self) -> (r: bool)
        ensures
            r == change_is_published(self.prev_state, self.subreddit.state),
    {
        self.prev_state != self.subreddit.state && (self.prev_state != SubredditState::UNKNOWN
            || self.subreddit.state == SubredditState::PRIVATE)
    }
}

/// A page seen for the first time is announced only when it is private; a
/// page whose state was known is announced on every change.
pub proof fn lemma_publish_rule(prev: SubredditState, next: SubredditState)
    ensures
        prev == SubredditState::UNKNOWN && next != SubredditState::PRIVATE ==> !change_is_published(prev, next),
        prev == SubredditState::UNKNOWN && next == SubredditState::PRIVATE ==> change_is_published(prev, next),
        prev != SubredditState::UNKNOWN && prev != next ==> change_is_published(prev, next),
        prev == next ==> !change_is_published(prev, next),
{
}

} // verus!
