//! The visibility state of a community page.
use vstd::prelude::*;

use crate::text::{lemma_filter_prefix_step, str_eq};

verus! {

/// Visibility of a community page as last observed.
///
/// The derived order only serves to key maps deterministically; it ranks
/// nothing.
#[allow(non_camel_case_types)]
#[derive(Clone, Copy, Debug, PartialEq, Eq, Structural, PartialOrd, Ord, Hash)]
pub enum SubredditState {
    UNKNOWN,
    PRIVATE,
    PUBLIC,
    ARCHIVED,
    OLIVER,
    RESTRICTED,
}

/// A state name that the bulk endpoint is not known to send.
#[derive(Clone, Debug)]
pub struct UnknownStateError {
    pub name: String,
}

impl SubredditState {
    /// The lower-case name of a state.
    pub open spec fn name_spec(self) -> Seq<char> {
        match self {
            SubredditState::UNKNOWN => "unknown"@,
            SubredditState::PRIVATE => "private"@,
            SubredditState::PUBLIC => "public"@,
            SubredditState::RESTRICTED => "restricted"@,
            SubredditState::ARCHIVED => "archived"@,
            SubredditState::OLIVER => "oliver"@,
        }
    }

    /// Content of the page is not reachable by the public.
    pub open spec fn is_dark_spec(self) -> bool {
        match self {
            SubredditState::PRIVATE | SubredditState::ARCHIVED | SubredditState::OLIVER
            | SubredditState::RESTRICTED => true,
            SubredditState::UNKNOWN | SubredditState::PUBLIC => false,
        }
    }

    /// Content of the page is reachable, or nothing is known of it yet.
    pub open spec fn is_light_spec(self) -> bool {
        match self {
            SubredditState::UNKNOWN | SubredditState::PUBLIC => true,
            _ => false,
        }
    }

    /// Every state, in declaration order.
    pub open spec fn all_spec() -> Seq<SubredditState> {
        seq![
            SubredditState::UNKNOWN,
            SubredditState::PRIVATE,
            SubredditState::PUBLIC,
            SubredditState::ARCHIVED,
            SubredditState::OLIVER,
            SubredditState::RESTRICTED,
        ]
    }

    /// The state that a `subreddit_type` value of the bulk endpoint names.
    pub open spec fn parse_spec(s: Seq<char>) -> Option<SubredditState> {
        if s == "public"@ {
            Some(SubredditState::PUBLIC)
        } else if s == "restricted"@ {
            Some(SubredditState::RESTRICTED)
        } else if s == "private"@ {
            Some(SubredditState::PRIVATE)
        } else if s == "archived"@ {
            Some(SubredditState::ARCHIVED)
        } else {
            None
        }
    }

    pub fn to_string(&self) -> (r: String)
        ensures
            r@ == self.name_spec(),
    {
        match self {
            SubredditState::UNKNOWN => String::from_str("unknown"),
            SubredditState::PRIVATE => String::from_str("private"),
            SubredditState::PUBLIC => String::from_str("public"),
            SubredditState::RESTRICTED => String::from_str("restricted"),
            SubredditState::ARCHIVED => String::from_str("archived"),
            SubredditState::OLIVER => String::from_str("oliver"),
        }
    }

    pub fn is_dark(&self) -> (r: bool)
        ensures
            r == self.is_dark_spec(),
    {
        match self {
            SubredditState::UNKNOWN => false,
            SubredditState::PRIVATE => true,
            SubredditState::PUBLIC => false,
            SubredditState::ARCHIVED => true,
            SubredditState::OLIVER => true,
            SubredditState::RESTRICTED => true,
        }
    }

    pub fn is_light(&self) -> (r: bool)
        ensures
            r == self.is_light_spec(),
    {
        !self.is_dark()
    }

    /// Every state, in declaration order.
    pub fn all() -> (r: Vec<SubredditState>)
        ensures
            r@ == Self::all_spec(),
    {
        let r = vec![
            SubredditState::UNKNOWN,
            SubredditState::PRIVATE,
            SubredditState::PUBLIC,
            SubredditState::ARCHIVED,
            SubredditState::OLIVER,
            SubredditState::RESTRICTED,
        ];
        assert(r@ =~= Self::all_spec());
        r
    }

    /// The dark states, in declaration order.
    pub fn dark_states() -> (r: Vec<SubredditState>)
        ensures
            r@ == Self::all_spec().filter(|s: SubredditState| s.is_dark_spec()),
    {
        let all = Self::all();
        let mut r: Vec<SubredditState> = Vec::new();
        for i in 0..all.len()
            invariant
                all@ == Self::all_spec(),
                r@ == all@.take(i as int).filter(|s: SubredditState| s.is_dark_spec()),
        {
            proof {
                lemma_filter_prefix_step(all@, i as int, |s: SubredditState| s.is_dark_spec());
            }
            if all[i].is_dark() {
                r.push(all[i]);
            }
        }
        assert(all@.take(all@.len() as int) =~= all@);
        r
    }

    /// The light states, in declaration order.
    pub fn light_states() -> (r: Vec<SubredditState>)
        ensures
            r@ == Self::all_spec().filter(|s: SubredditState| s.is_light_spec()),
    {
        let all = Self::all();
        let mut r: Vec<SubredditState> = Vec::new();
        for i in 0..all.len()
            invariant
                all@ == Self::all_spec(),
                r@ == all@.take(i as int).filter(|s: SubredditState| s.is_light_spec()),
        {
            proof {
                lemma_filter_prefix_step(all@, i as int, |s: SubredditState| s.is_light_spec());
            }
            if all[i].is_light() {
                r.push(all[i]);
            }
        }
        assert(all@.take(all@.len() as int) =~= all@);
        r
    }

    /// Each state with its name, in declaration order.
    pub fn state_map() -> (r: Vec<(SubredditState, String)>)
        ensures
            r@.len() == Self::all_spec().len(),
            forall|i: int|
                0 <= i < r@.len() ==> r@[i].0 == Self::all_spec()[i] && r@[i].1@ == (
                #[trigger] Self::all_spec()[i]).name_spec(),
    {
        let all = Self::all();
        let mut r: Vec<(SubredditState, String)> = Vec::new();
        for i in 0..all.len()
            invariant
                all@ == Self::all_spec(),
                r@.len() == i,
                forall|k: int|
                    0 <= k < i ==> r@[k].0 == all@[k] && r@[k].1@ == (#[trigger] all@[k]).name_spec(),
        {
            let s = all[i];
            r.push((s, s.to_string()));
        }
        r
    }

    /// Reads a `subreddit_type` value of the bulk endpoint.
    pub fn parse(s: &str) -> (r: Result<SubredditState, UnknownStateError>)
        ensures
            match r {
                Ok(st) => Self::parse_spec(s@) == Some(st),
                Err(e) => Self::parse_spec(s@) is None && e.name@ == s@,
            },
    {
        if str_eq(s, "public") {
            Ok(SubredditState::PUBLIC)
        } else if str_eq(s, "restricted") {
            Ok(SubredditState::RESTRICTED)
        } else if str_eq(s, "private") {
            Ok(SubredditState::PRIVATE)
        } else if str_eq(s, "archived") {
            Ok(SubredditState::ARCHIVED)
        } else {
            Err(UnknownStateError { name: String::from_str(s) })
        }
    }
}

impl core::str::FromStr for SubredditState {
    type Err = UnknownStateError;

    fn from_str(s: &str) -> Result<SubredditState, UnknownStateError> {
        SubredditState::parse(s)
    }
}

/// Dark and light split the states: each state is exactly one of the two.
pub proof fn lemma_dark_light_partition(s: SubredditState)
    ensures
        s.is_dark_spec() == !s.is_light_spec(),
{
}

/// Each of the four names that the bulk endpoint sends reads back as its
/// state, and every other text is refused.
pub proof fn lemma_parse_round_trip(s: SubredditState, t: Seq<char>)
    ensures
        s == SubredditState::PUBLIC || s == SubredditState::RESTRICTED || s
            == SubredditState::PRIVATE || s == SubredditState::ARCHIVED ==> SubredditState::parse_spec(
            s.name_spec(),
        ) == Some(s),
        SubredditState::parse_spec(t) is Some <==> (t == "public"@ || t == "restricted"@ || t
            == "private"@ || t == "archived"@),
{
    reveal_strlit("public");
    reveal_strlit("restricted");
    reveal_strlit("private");
    reveal_strlit("archived");
    assert("public"@.len() == 6);
    assert("restricted"@.len() == 10);
    assert("private"@.len() == 7);
    assert("archived"@.len() == 8);
}

} // verus!
