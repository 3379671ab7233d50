//! Requests to the site's JSON endpoints, and what their responses say of the
//! state of pages.
use vstd::prelude::*;

use crate::json::JsonValue;
use crate::roster::{parse_roster, parse_roster_spec, views_of_strings, views_of_subs};
use crate::state::SubredditState;
use crate::subreddit::Subreddit;
use crate::text::{
    bare_name, bare_name_of, lowercase, push_char, str_eq, to_lowercase, to_uppercase, uppercase,
};

verus! {

/// The most names that one bulk request may carry.
pub const MAX_BULK_NAMES: usize = 100;

/// A request to the site: a path relative to its host, and the query
/// parameters if there are any.
#[derive(Clone, Debug)]
pub struct FetchRequest {
    pub path: String,
    pub query: Option<Vec<(String, String)>>,
}

/// Why a resolver operation gave no answer.
#[derive(Clone, Debug)]
pub enum ResolveError {
    /// A bulk request was asked for more than [`MAX_BULK_NAMES`] names; no
    /// request was made.
    TooManyItems { count: usize },
    /// The response does not have the shape that the endpoint promises.
    Malformed,
    /// The bulk response named a page type that is not known.
    UnknownState { name: String },
}

/// The request for the state of one page.
pub fn about_request(name: &str) -> (r: FetchRequest)
    ensures
        r.path@ == name@ + "/about.json"@,
        r.query is None,
{
    FetchRequest { path: String::from_str(name).concat("/about.json"), query: None }
}

/// The state that an upper-cased `subreddit_type` stands for.
pub open spec fn type_state(upper: Seq<char>) -> SubredditState {
    if upper == "RESTRICTED"@ {
        SubredditState::RESTRICTED
    } else {
        SubredditState::PUBLIC
    }
}

/// The response gives a `reason` of `private` or `banned`.
pub open spec fn reason_is_private(about: JsonValue) -> bool {
    about.str_at("reason"@) == Some("private"@) || about.str_at("reason"@) == Some("banned"@)
}

/// The state that a response of the single-page endpoint gives, by the first
/// rule that applies: a `reason` of `private` or `banned` makes it private;
/// else `data` with a `subreddit_type` of `restricted` in any case makes it
/// restricted, and any other `data` public; else it is unknown.
pub open spec fn about_state(about: JsonValue) -> SubredditState {
    if reason_is_private(about) {
        SubredditState::PRIVATE
    } else {
        match about.get_spec("data"@) {
            Some(data) => match data.str_at("subreddit_type"@) {
                Some(t) => type_state(uppercase(t)),
                None => SubredditState::PUBLIC,
            },
            None => SubredditState::UNKNOWN,
        }
    }
}

/// The state for a `subreddit_type` that is already upper-cased.
pub fn subreddit_type_state(upper: &str) -> (r: SubredditState)
    ensures
        r == type_state(upper@),
{
    if str_eq(upper, "RESTRICTED") {
        SubredditState::RESTRICTED
    } else {
        SubredditState::PUBLIC
    }
}

/// Classifies a response of the single-page endpoint.
pub fn state_from_about(about: &JsonValue) -> (r: SubredditState)
    ensures
        r == about_state(*about),
{
    let private = match about.get("reason") {
        Some(reason) => match reason.as_str() {
            Some(text) => str_eq(text, "private") || str_eq(text, "banned"),
            None => false,
        },
        None => false,
    };
    if private {
        return SubredditState::PRIVATE;
    }
    match about.get("data") {
        Some(data) => match data.get("subreddit_type") {
            Some(kind) => match kind.as_str() {
                Some(text) => {
                    let upper = to_uppercase(text);
                    subreddit_type_state(upper.as_str())
                },
                None => SubredditState::PUBLIC,
            },
            None => SubredditState::PUBLIC,
        },
        None => SubredditState::UNKNOWN,
    }
}

/// `names` joined by commas.
pub open spec fn joined(names: Seq<Seq<char>>) -> Seq<char>
    decreases names.len(),
{
    if names.len() == 0 {
        Seq::empty()
    } else if names.len() == 1 {
        names[0]
    } else {
        joined(names.drop_last()) + seq![','] + names.last()
    }
}

/// The `sr_name` parameter of a bulk request for `names`.
pub open spec fn bulk_names_param(names: Seq<String>) -> Seq<char> {
    joined(names.map_values(|n: String| bare_name(n@)))
}

/// The request for the states of `names`, each without its leading `r/` and
/// surrounding white space; refused when there are more than
/// [`MAX_BULK_NAMES`] of them.
pub fn bulk_request(names: &[String]) -> (r: Result<FetchRequest, ResolveError>)
    ensures
        match r {
            Err(ResolveError::TooManyItems { count }) => names@.len() > MAX_BULK_NAMES && count
                == names@.len(),
            Ok(req) => names@.len() <= MAX_BULK_NAMES && req.path@ == "api/info.json"@
                && match req.query {
                Some(q) => q@.len() == 1 && q@[0].0@ == "sr_name"@ && q@[0].1@ == bulk_names_param(
                    names@,
                ),
                None => false,
            },
            _ => false,
        },
{
    if names.len() > MAX_BULK_NAMES {
        return Err(ResolveError::TooManyItems { count: names.len() });
    }
    let ghost bare = names@.map_values(|n: String| bare_name(n@));
    let mut joined_names = String::new();
    for i in 0..names.len()
        invariant
            bare == names@.map_values(|n: String| bare_name(n@)),
            joined_names@ == joined(bare.take(i as int)),
    {
        let name = bare_name_of(names[i].as_str());
        assert(bare.take(i + 1).drop_last() =~= bare.take(i as int));
        if i > 0 {
            push_char(&mut joined_names, ',');
        } else {
            assert(bare.take(i as int) =~= Seq::<Seq<char>>::empty());
        }
        joined_names.append(name.as_str());
    }
    assert(bare.take(names@.len() as int) =~= bare);
    let query = vec![(String::from_str("sr_name"), joined_names)];
    Ok(FetchRequest { path: String::from_str("api/info.json"), query: Some(query) })
}

/// Why a bulk response gives no states.
pub enum BulkFault {
    Malformed,
    Unknown(Seq<char>),
}

/// What one child of a bulk response gives: its display name and its state.
pub open spec fn child_spec(child: JsonValue) -> Result<(Seq<char>, SubredditState), BulkFault> {
    match child.get_spec("data"@) {
        None => Err(BulkFault::Malformed),
        Some(d) => match (d.str_at("subreddit_type"@), d.str_at("display_name_prefixed"@)) {
            (Some(t), Some(n)) => match SubredditState::parse_spec(t) {
                Some(s) => Ok((n, s)),
                None => Err(BulkFault::Unknown(t)),
            },
            _ => Err(BulkFault::Malformed),
        },
    }
}

/// What the children of a bulk response give, in order; the first child that
/// gives no state decides the fault of the whole response.
pub open spec fn children_spec(children: Seq<JsonValue>) -> Result<
    Seq<(Seq<char>, SubredditState)>,
    BulkFault,
>
    decreases children.len(),
{
    if children.len() == 0 {
        Ok(Seq::empty())
    } else {
        match children_spec(children.drop_last()) {
            Err(f) => Err(f),
            Ok(es) => match child_spec(children.last()) {
                Err(f) => Err(f),
                Ok(e) => Ok(es.push(e)),
            },
        }
    }
}

/// What a bulk response gives: the display name and state of each child of
/// `data.children`.
pub open spec fn bulk_spec(resp: JsonValue) -> Result<Seq<(Seq<char>, SubredditState)>, BulkFault> {
    match resp.get_spec("data"@) {
        Some(d) => match d.get_spec("children"@) {
            Some(JsonValue::Array(children)) => children_spec(children@),
            _ => Err(BulkFault::Malformed),
        },
        None => Err(BulkFault::Malformed),
    }
}

pub open spec fn entries_view(v: Seq<(String, SubredditState)>) -> Seq<(Seq<char>, SubredditState)> {
    v.map_values(|e: (String, SubredditState)| (e.0@, e.1))
}

/// The error matches the fault.
pub open spec fn reports(e: ResolveError, f: BulkFault) -> bool {
    match (e, f) {
        (ResolveError::Malformed, BulkFault::Malformed) => true,
        (ResolveError::UnknownState { name }, BulkFault::Unknown(t)) => name@ == t,
        _ => false,
    }
}

fn parse_child(child: &JsonValue) -> (r: Result<(String, SubredditState), ResolveError>)
    ensures
        match (r, child_spec(*child)) {
            (Ok(e), Ok(s)) => e.0@ == s.0 && e.1 == s.1,
            (Err(e), Err(f)) => reports(e, f),
            _ => false,
        },
{
    let data = match child.get("data") {
        Some(d) => d,
        None => return Err(ResolveError::Malformed),
    };
    let kind = match data.get("subreddit_type") {
        Some(k) => match k.as_str() {
            Some(t) => t,
            None => return Err(ResolveError::Malformed),
        },
        None => return Err(ResolveError::Malformed),
    };
    let name = match data.get("display_name_prefixed") {
        Some(n) => match n.as_str() {
            Some(t) => t,
            None => return Err(ResolveError::Malformed),
        },
        None => return Err(ResolveError::Malformed),
    };
    match SubredditState::parse(kind) {
        Ok(state) => Ok((String::from_str(name), state)),
        Err(e) => Err(ResolveError::UnknownState { name: e.name }),
    }
}

/// Reads a bulk response: the display name and state of each page it
/// describes, in order.
pub fn parse_bulk_response(resp: &JsonValue) -> (r: Result<Vec<(String, SubredditState)>, ResolveError>)
    ensures
        match (r, bulk_spec(*resp)) {
            (Ok(v), Ok(es)) => entries_view(v@) == es,
            (Err(e), Err(f)) => reports(e, f),
            _ => false,
        },
{
    let children = match resp.get("data") {
        Some(d) => match d.get("children") {
            Some(c) => match c.as_array() {
                Some(items) => items,
                None => return Err(ResolveError::Malformed),
            },
            None => return Err(ResolveError::Malformed),
        },
        None => return Err(ResolveError::Malformed),
    };
    let mut out: Vec<(String, SubredditState)> = Vec::new();
    assert(children@.take(0) =~= Seq::<JsonValue>::empty());
    assert(entries_view(out@) =~= Seq::<(Seq<char>, SubredditState)>::empty());
    for i in 0..children.len()
        invariant
            bulk_spec(*resp) == children_spec(children@),
            children_spec(children@.take(i as int)) == Ok::<
                Seq<(Seq<char>, SubredditState)>,
                BulkFault,
            >(entries_view(out@)),
    {
        let ghost before = out@;
        assert(children@.take(i + 1).drop_last() =~= children@.take(i as int));
        match parse_child(&children[i]) {
            Ok(e) => {
                out.push(e);
                assert(entries_view(out@) =~= entries_view(before).push((e.0@, e.1)));
            },
            Err(e) => {
                proof {
                    lemma_children_fault_persists(children@, i as int + 1);
                }
                return Err(e);
            },
        }
    }
    assert(children@.take(children@.len() as int) =~= children@);
    Ok(out)
}

/// Once a prefix of the children gives a fault, the whole sequence gives it.
proof fn lemma_children_fault_persists(children: Seq<JsonValue>, k: int)
    requires
        0 <= k <= children.len(),
        children_spec(children.take(k)) is Err,
    ensures
        children_spec(children) == children_spec(children.take(k)),
    decreases children.len() - k,
{
    if k < children.len() {
        assert(children.take(k + 1).drop_last() =~= children.take(k));
        lemma_children_fault_persists(children, k + 1);
    } else {
        assert(children.take(k) =~= children);
    }
}

/// A child whose `subreddit_type` is one of the four names that the endpoint
/// sends gives that state; any other type makes the whole response fail.
pub proof fn lemma_bulk_child_type(
    children: Seq<JsonValue>,
    k: int,
    d: JsonValue,
    n: Seq<char>,
    t: Seq<char>,
)
    requires
        0 <= k < children.len(),
        children[k].get_spec("data"@) == Some(d),
        d.str_at("subreddit_type"@) == Some(t),
        d.str_at("display_name_prefixed"@) == Some(n),
    ensures
        SubredditState::parse_spec(t) matches Some(s) ==> child_spec(children[k]) == Ok::<
            (Seq<char>, SubredditState),
            BulkFault,
        >((n, s)),
        SubredditState::parse_spec(t) is None ==> children_spec(children) is Err,
{
    if SubredditState::parse_spec(t) is None {
        let pre = children.take(k + 1);
        assert(pre.last() == children[k]);
        assert(children_spec(pre) is Err);
        lemma_children_fault_persists(children, k + 1);
    }
}

/// The state recorded last for `key` among `entries`.
pub open spec fn lookup(entries: Seq<(Seq<char>, SubredditState)>, key: Seq<char>) -> Option<
    SubredditState,
>
    decreases entries.len(),
{
    if entries.len() == 0 {
        None
    } else if entries.last().0 == key {
        Some(entries.last().1)
    } else {
        lookup(entries.drop_last(), key)
    }
}

/// States by lower-cased page name, as a bulk response gave them. A name
/// given twice keeps the state given last.
#[derive(Clone, Debug)]
pub struct StateTable {
    entries: Vec<(String, SubredditState)>,
}

impl View for StateTable {
    type V = Seq<(Seq<char>, SubredditState)>;

    closed spec fn view(&self) -> Seq<(Seq<char>, SubredditState)> {
        entries_view(self.entries@)
    }
}

impl StateTable {
    pub fn new() -> (r: StateTable)
        ensures
            r@ == Seq::<(Seq<char>, SubredditState)>::empty(),
    {
        let r = StateTable { entries: Vec::new() };
        assert(r@ =~= Seq::<(Seq<char>, SubredditState)>::empty());
        r
    }

    /// Records `state` for the lower-cased name `key`.
    pub fn insert(&mut self, key: String, state: SubredditState)
        ensures
            final(self)@ == old(self)@.push((key@, state)),
    {
        let ghost before = self.entries@;
        self.entries.push((key, state));
        assert(entries_view(self.entries@) =~= entries_view(before).push((key@, state)));
    }

    /// The state recorded for the lower-cased name `key`.
    pub fn get(&self, key: &str) -> (r: Option<SubredditState>)
        ensures
            r == lookup(self@, key@),
    {
        let wanted = String::from_str(key);
        let mut i: usize = self.entries.len();
        assert(self@.take(i as int) =~= self@);
        while i > 0
            invariant
                i <= self.entries@.len(),
                self@.len() == self.entries@.len(),
                self@ == entries_view(self.entries@),
                wanted@ == key@,
                lookup(self@, key@) == lookup(self@.take(i as int), key@),
            decreases i,
        {
            let ghost prefix = self@.take(i as int);
            assert(prefix.last() == (self.entries@[i - 1].0@, self.entries@[i - 1].1));
            if self.entries[i - 1].0 == wanted {
                return Some(self.entries[i - 1].1);
            }
            assert(prefix.drop_last() =~= self@.take(i - 1));
            i = i - 1;
        }
        None
    }

    /// The table of a bulk response's entries, each under its lower-cased
    /// display name.
    pub fn from_entries(entries: &[(String, SubredditState)]) -> (r: StateTable)
        ensures
            r@ == entries@.map_values(
                |e: (String, SubredditState)| (lowercase(e.0@), e.1),
            ),
    {
        let mut t = StateTable::new();
        for i in 0..entries.len()
            invariant
                t@ == entries@.take(i as int).map_values(
                    |e: (String, SubredditState)| (lowercase(e.0@), e.1),
                ),
        {
            let key = to_lowercase(entries[i].0.as_str());
            t.insert(key, entries[i].1);
            assert(entries@.take(i + 1).map_values(
                |e: (String, SubredditState)| (lowercase(e.0@), e.1),
            ) =~= entries@.take(i as int).map_values(
                |e: (String, SubredditState)| (lowercase(e.0@), e.1),
            ).push((lowercase(entries@[i as int].0@), entries@[i as int].1)));
        }
        assert(entries@.take(entries@.len() as int) =~= entries@);
        t
    }
}

/// The states that a bulk response gives, by lower-cased display name.
pub fn states_from_bulk_response(resp: &JsonValue) -> (r: Result<StateTable, ResolveError>)
    ensures
        match (r, bulk_spec(*resp)) {
            (Ok(t), Ok(es)) => t@ == es.map_values(
                |e: (Seq<char>, SubredditState)| (lowercase(e.0), e.1),
            ),
            (Err(e), Err(f)) => reports(e, f),
            _ => false,
        },
{
    let entries = parse_bulk_response(resp)?;
    let t = StateTable::from_entries(entries.as_slice());
    assert(t@ =~= entries_view(entries@).map_values(
        |e: (Seq<char>, SubredditState)| (lowercase(e.0), e.1),
    ));
    Ok(t)
}

/// The text of the roster that a response of the index page holds: its
/// `data.content_md`.
pub open spec fn roster_text_spec(index: JsonValue) -> Option<Seq<char>> {
    match index.get_spec("data"@) {
        Some(d) => d.str_at("content_md"@),
        None => None,
    }
}

/// The request for the moderators' index page.
pub fn roster_request() -> (r: FetchRequest)
    ensures
        r.path@ == "/r/ModCoord/wiki/index.json"@,
        r.query is None,
{
    FetchRequest { path: String::from_str("/r/ModCoord/wiki/index.json"), query: None }
}

/// The sections and pages that a response of the index page lists.
pub fn roster_from_index(index: &JsonValue) -> (r: Result<(Vec<String>, Vec<Subreddit>), ResolveError>)
    ensures
        match r {
            Ok((sections, subs)) => roster_text_spec(*index) matches Some(t) && views_of_strings(
                sections@,
            ) == parse_roster_spec(t).sections && views_of_subs(subs@) == parse_roster_spec(
                t,
            ).subs,
            Err(e) => roster_text_spec(*index) is None && e is Malformed,
        },
{
    let text = match index.get("data") {
        Some(d) => match d.get("content_md") {
            Some(c) => match c.as_str() {
                Some(t) => t,
                None => return Err(ResolveError::Malformed),
            },
            None => return Err(ResolveError::Malformed),
        },
        None => return Err(ResolveError::Malformed),
    };
    Ok(parse_roster(text))
}

/// Every item of `items` is a string.
pub open spec fn all_strings(items: Seq<JsonValue>) -> bool {
    forall|i: int| 0 <= i < items.len() ==> (#[trigger] items[i]).str_spec() is Some
}

/// The names that the curated list document holds under `johnOliverSubs`.
pub open spec fn curated_spec(doc: JsonValue) -> Option<Seq<Seq<char>>> {
    match doc.get_spec("johnOliverSubs"@) {
        Some(JsonValue::Array(items)) => if all_strings(items@) {
            Some(items@.map_values(|v: JsonValue| v.str_spec().unwrap()))
        } else {
            None
        },
        _ => None,
    }
}

/// Reads the curated list document: the names it holds, as written.
pub fn curated_names(doc: &JsonValue) -> (r: Result<Vec<String>, ResolveError>)
    ensures
        match r {
            Ok(v) => curated_spec(*doc) == Some(views_of_strings(v@)),
            Err(e) => curated_spec(*doc) is None && e is Malformed,
        },
{
    let items = match doc.get("johnOliverSubs") {
        Some(v) => match v.as_array() {
            Some(items) => items,
            None => return Err(ResolveError::Malformed),
        },
        None => return Err(ResolveError::Malformed),
    };
    let mut names: Vec<String> = Vec::new();
    for i in 0..items.len()
        invariant
            doc.get_spec("johnOliverSubs"@) == Some(JsonValue::Array(*items)),
            all_strings(items@.take(i as int)),
            views_of_strings(names@) == items@.take(i as int).map_values(
                |v: JsonValue| v.str_spec().unwrap(),
            ),
    {
        let ghost before = names@;
        match items[i].as_str() {
            Some(t) => {
                names.push(String::from_str(t));
                assert(views_of_strings(names@) =~= views_of_strings(before).push(t@));
                assert(items@.take(i + 1).map_values(|v: JsonValue| v.str_spec().unwrap())
                    =~= items@.take(i as int).map_values(
                    |v: JsonValue| v.str_spec().unwrap(),
                ).push(t@));
                assert(all_strings(items@.take(i + 1))) by {
                    assert forall|k: int| 0 <= k < i + 1 implies (#[trigger] items@.take(
                        i + 1,
                    )[k]).str_spec() is Some by {
                        if k < i {
                            assert(items@.take(i + 1)[k] == items@.take(i as int)[k]);
                        }
                    }
                }
            },
            None => {
                assert(!all_strings(items@)) by {
                    assert(items@[i as int].str_spec() is None);
                }
                return Err(ResolveError::Malformed);
            },
        }
    }
    assert(items@.take(items@.len() as int) =~= items@);
    Ok(names)
}

/// The curated names, lower-cased. A page whose lower-cased name is among
/// them is shown as curated whatever its observed state.
#[derive(Clone, Debug)]
pub struct CuratedSet {
    names: Vec<String>,
}

impl View for CuratedSet {
    type V = Seq<Seq<char>>;

    closed spec fn view(&self) -> Seq<Seq<char>> {
        views_of_strings(self.names@)
    }
}

impl CuratedSet {
    pub fn new() -> (r: CuratedSet)
        ensures
            r@ == Seq::<Seq<char>>::empty(),
    {
        let r = CuratedSet { names: Vec::new() };
        assert(r@ =~= Seq::<Seq<char>>::empty());
        r
    }

    /// Adds the lower-cased name `lower`.
    pub fn insert(&mut self, lower: String)
        ensures
            final(self)@ == old(self)@.push(lower@),
    {
        let ghost before = self.names@;
        self.names.push(lower);
        assert(views_of_strings(self.names@) =~= views_of_strings(before).push(lower@));
    }

    /// Whether the lower-cased name `lower` is curated.
    pub fn contains(&self, lower: &str) -> (r: bool)
        ensures
            r == self@.contains(lower@),
    {
        let wanted = String::from_str(lower);
        for i in 0..self.names.len()
            invariant
                wanted@ == lower@,
                self@ == views_of_strings(self.names@),
                forall|k: int| 0 <= k < i ==> self@[k] != lower@,
        {
            if self.names[i] == wanted {
                assert(self@[i as int] == lower@);
                return true;
            }
        }
        false
    }

    /// The set of the lower-cased `names`.
    pub fn from_names(names: &[String]) -> (r: CuratedSet)
        ensures
            r@ == names@.map_values(|n: String| lowercase(n@)),
    {
        let mut r = CuratedSet::new();
        for i in 0..names.len()
            invariant
                r@ == names@.take(i as int).map_values(|n: String| lowercase(n@)),
        {
            r.insert(to_lowercase(names[i].as_str()));
            assert(names@.take(i + 1).map_values(|n: String| lowercase(n@)) =~= names@.take(
                i as int,
            ).map_values(|n: String| lowercase(n@)).push(lowercase(names@[i as int]@)));
        }
        assert(names@.take(names@.len() as int) =~= names@);
        r
    }
}

} // verus!
