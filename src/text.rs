//! Character-level helpers with exact specifications.
//!
//! Text is read once into a `Vec<char>`; the helpers then work on ranges of
//! it, so that each runs in time linear in the range.
use vstd::prelude::*;

verus! {

/// The characters of `s`, in order.
pub fn chars_of(s: &str) -> (r: Vec<char>)
    ensures
        r@ == s@,
{
    let mut r: Vec<char> = Vec::new();
    for c in it: s.chars()
        invariant
            r@ == it.seq().take(it.index() as int),
            it.seq() == s@,
    {
        r.push(c);
    }
    r
}

/// Relies on `String::push`: appends one character.
#[verifier::external_body]
pub(crate) fn push_char(s: &mut String, c: char)
    ensures
        final(s)@ == old(s)@.push(c),
{
    s.push(c);
}

/// A `String` holding the characters `cs[lo..hi]`.
pub fn string_of(cs: &[char], lo: usize, hi: usize) -> (r: String)
    requires
        lo <= hi <= cs@.len(),
    ensures
        r@ == cs@.subrange(lo as int, hi as int),
{
    let mut r = String::new();
    let mut i: usize = lo;
    while i < hi
        invariant
            lo <= i <= hi <= cs@.len(),
            r@ == cs@.subrange(lo as int, i as int),
        decreases hi - i,
    {
        push_char(&mut r, cs[i]);
        assert(cs@.subrange(lo as int, i + 1) =~= cs@.subrange(lo as int, i as int).push(cs@[i as int]));
        i = i + 1;
    }
    r
}

/// Whether `a` and `b` hold the same characters.
pub fn str_eq(a: &str, b: &str) -> (r: bool)
    ensures
        r == (a@ == b@),
{
    let x = String::from_str(a);
    let y = String::from_str(b);
    x == y
}

/// Whether `cs[lo..hi]` holds the characters of `p`.
pub fn range_eq(cs: &[char], lo: usize, hi: usize, p: &[char]) -> (r: bool)
    requires
        lo <= hi <= cs@.len(),
    ensures
        r == (cs@.subrange(lo as int, hi as int) == p@),
{
    if hi - lo != p.len() {
        return false;
    }
    let mut i: usize = 0;
    while i < p.len()
        invariant
            lo <= hi <= cs@.len(),
            hi - lo == p@.len(),
            i <= p@.len(),
            forall|t: int| 0 <= t < i ==> cs@[lo + t] == p@[t],
        decreases p@.len() - i,
    {
        if cs[lo + i] != p[i] {
            assert(cs@.subrange(lo as int, hi as int)[i as int] != p@[i as int]);
            return false;
        }
        i = i + 1;
    }
    assert(cs@.subrange(lo as int, hi as int) =~= p@);
    true
}

/// The characters that `char::is_whitespace` accepts: Unicode `White_Space`.
pub open spec fn is_space(c: char) -> bool {
    ||| '\u{9}' <= c <= '\u{d}'
    ||| c == ' '
    ||| c == '\u{85}'
    ||| c == '\u{a0}'
    ||| c == '\u{1680}'
    ||| '\u{2000}' <= c <= '\u{200a}'
    ||| c == '\u{2028}'
    ||| c == '\u{2029}'
    ||| c == '\u{202f}'
    ||| c == '\u{205f}'
    ||| c == '\u{3000}'
}

pub fn is_space_char(c: char) -> (r: bool)
    ensures
        r == is_space(c),
{
    ('\u{9}' <= c && c <= '\u{d}') || c == ' ' || c == '\u{85}' || c == '\u{a0}' || c
        == '\u{1680}' || ('\u{2000}' <= c && c <= '\u{200a}') || c == '\u{2028}' || c
        == '\u{2029}' || c == '\u{202f}' || c == '\u{205f}' || c == '\u{3000}'
}

/// `s` without its leading white space.
pub open spec fn trim_start_spec(s: Seq<char>) -> Seq<char>
    decreases s.len(),
{
    if s.len() > 0 && is_space(s[0]) {
        trim_start_spec(s.skip(1))
    } else {
        s
    }
}

/// `s` without its trailing white space.
pub open spec fn trim_end_spec(s: Seq<char>) -> Seq<char>
    decreases s.len(),
{
    if s.len() > 0 && is_space(s.last()) {
        trim_end_spec(s.drop_last())
    } else {
        s
    }
}

/// `s` without white space at either end, as `str::trim` gives it.
pub open spec fn trim_spec(s: Seq<char>) -> Seq<char> {
    trim_end_spec(trim_start_spec(s))
}

/// The bounds of `cs[lo..hi]` once white space is taken off both ends.
pub fn trim_bounds(cs: &[char], lo: usize, hi: usize) -> (r: (usize, usize))
    requires
        lo <= hi <= cs@.len(),
    ensures
        lo <= r.0 <= r.1 <= hi,
        cs@.subrange(r.0 as int, r.1 as int) == trim_spec(cs@.subrange(lo as int, hi as int)),
{
    let ghost s = cs@.subrange(lo as int, hi as int);
    let mut i: usize = lo;
    while i < hi
        invariant
            lo <= i <= hi <= cs@.len(),
            s == cs@.subrange(lo as int, hi as int),
            trim_start_spec(s) == trim_start_spec(cs@.subrange(i as int, hi as int)),
        ensures
            lo <= i <= hi,
            trim_start_spec(s) == trim_start_spec(cs@.subrange(i as int, hi as int)),
            i == hi || !is_space(cs@[i as int]),
        decreases hi - i,
    {
        if !is_space_char(cs[i]) {
            break;
        }
        assert(cs@.subrange(i as int, hi as int).skip(1) =~= cs@.subrange(i + 1, hi as int));
        i = i + 1;
    }
    let ghost front = cs@.subrange(i as int, hi as int);
    assert(trim_start_spec(s) == front);
    let mut j: usize = hi;
    while j > i
        invariant
            i <= j <= hi <= cs@.len(),
            front == cs@.subrange(i as int, hi as int),
            trim_end_spec(front) == trim_end_spec(cs@.subrange(i as int, j as int)),
        ensures
            i <= j <= hi,
            trim_end_spec(front) == trim_end_spec(cs@.subrange(i as int, j as int)),
            j == i || !is_space(cs@[j - 1]),
        decreases j,
    {
        if !is_space_char(cs[j - 1]) {
            break;
        }
        assert(cs@.subrange(i as int, j as int).drop_last() =~= cs@.subrange(i as int, j - 1));
        j = j - 1;
    }
    (i, j)
}

/// `s` after every leading `r/` is taken off, as `str::trim_start_matches("r/")`
/// gives it.
pub open spec fn strip_subreddit_prefix(s: Seq<char>) -> Seq<char>
    decreases s.len(),
{
    if s.len() >= 2 && s[0] == 'r' && s[1] == '/' {
        strip_subreddit_prefix(s.skip(2))
    } else {
        s
    }
}

/// A page name as the bulk endpoint takes it: every leading `r/` taken off,
/// then white space at both ends.
pub open spec fn bare_name(s: Seq<char>) -> Seq<char> {
    trim_spec(strip_subreddit_prefix(s))
}

pub fn bare_name_of(s: &str) -> (r: String)
    ensures
        r@ == bare_name(s@),
{
    let cs = chars_of(s);
    let n = cs.len();
    let mut i: usize = 0;
    assert(cs@.subrange(0, n as int) =~= cs@);
    while n - i >= 2
        invariant
            n == cs@.len(),
            i <= n,
            strip_subreddit_prefix(s@) == strip_subreddit_prefix(cs@.subrange(i as int, n as int)),
        ensures
            i <= n,
            strip_subreddit_prefix(s@) == strip_subreddit_prefix(cs@.subrange(i as int, n as int)),
            n - i < 2 || !(cs@[i as int] == 'r' && cs@[i + 1] == '/'),
        decreases n - i,
    {
        if !(cs[i] == 'r' && cs[i + 1] == '/') {
            break;
        }
        assert(cs@.subrange(i as int, n as int).skip(2) =~= cs@.subrange(i + 2, n as int));
        i = i + 2;
    }
    let (a, b) = trim_bounds(&cs, i, n);
    string_of(&cs, a, b)
}

/// `s` begins with `p`.
pub open spec fn has_prefix(s: Seq<char>, p: Seq<char>) -> bool {
    p.len() <= s.len() && s.subrange(0, p.len() as int) == p
}

/// `p` occurs in `s` as a run of consecutive characters.
pub open spec fn has_infix(s: Seq<char>, p: Seq<char>) -> bool {
    exists|k: int| 0 <= k && k + p.len() <= s.len() && #[trigger] s.subrange(k, k + p.len()) == p
}

/// Whether `cs[lo..hi]` begins with `p`.
pub fn range_has_prefix(cs: &[char], lo: usize, hi: usize, p: &[char]) -> (r: bool)
    requires
        lo <= hi <= cs@.len(),
    ensures
        r == has_prefix(cs@.subrange(lo as int, hi as int), p@),
{
    if p.len() > hi - lo {
        return false;
    }
    let r = range_eq(cs, lo, lo + p.len(), p);
    assert(cs@.subrange(lo as int, hi as int).subrange(0, p@.len() as int) =~= cs@.subrange(
        lo as int,
        lo + p@.len(),
    ));
    r
}

/// Whether `p` occurs in `cs[lo..hi]`.
pub fn range_has_infix(cs: &[char], lo: usize, hi: usize, p: &[char]) -> (r: bool)
    requires
        lo <= hi <= cs@.len(),
    ensures
        r == has_infix(cs@.subrange(lo as int, hi as int), p@),
{
    let ghost s = cs@.subrange(lo as int, hi as int);
    let m = p.len();
    if m > hi - lo {
        return false;
    }
    if m == 0 {
        assert(s.subrange(0int, 0int + p@.len()) =~= p@);
        return true;
    }
    let mut k: usize = 0;
    while k <= (hi - lo) - m
        invariant
            lo <= hi <= cs@.len(),
            s == cs@.subrange(lo as int, hi as int),
            m == p@.len(),
            1 <= m <= hi - lo,
            k <= (hi - lo) - m + 1,
            forall|t: int| 0 <= t < k ==> #[trigger] s.subrange(t, t + m) != p@,
        decreases hi - lo - k,
    {
        let found = range_eq(cs, lo + k, lo + k + m, p);
        assert(s.subrange(k as int, k + m) =~= cs@.subrange(lo + k, lo + k + m));
        if found {
            return true;
        }
        k = k + 1;
    }
    false
}

/// One step of a filter over growing prefixes.
pub proof fn lemma_filter_prefix_step<A>(s: Seq<A>, i: int, f: spec_fn(A) -> bool)
    requires
        0 <= i < s.len(),
    ensures
        s.take(i + 1).filter(f) == if f(s[i]) {
            s.take(i).filter(f).push(s[i])
        } else {
            s.take(i).filter(f)
        },
{
    assert(s.take(i + 1).drop_last() =~= s.take(i));
    reveal(Seq::filter);
}

/// What `str::to_lowercase` returns for the characters `s`.
pub uninterp spec fn lowercase(s: Seq<char>) -> Seq<char>;

/// Relies on `str::to_lowercase`: the lower-case mapping of each character,
/// a function of the characters alone.
#[verifier::external_body]
pub(crate) fn to_lowercase(s: &str) -> (r: String)
    ensures
        r@ == lowercase(s@),
{
    s.to_lowercase()
}

/// What `str::to_uppercase` returns for the characters `s`.
pub uninterp spec fn uppercase(s: Seq<char>) -> Seq<char>;

/// Relies on `str::to_uppercase`: the upper-case mapping of each character,
/// a function of the characters alone.
#[verifier::external_body]
pub(crate) fn to_uppercase(s: &str) -> (r: String)
    ensures
        r@ == uppercase(s@),
{
    s.to_uppercase()
}

/// What `char::is_alphanumeric` answers for `c`.
pub uninterp spec fn alphanumeric(c: char) -> bool;

/// Relies on `char::is_alphanumeric`: Unicode `Alphabetic` or `Numeric`, a
/// function of the character alone.
#[verifier::external_body]
pub(crate) fn is_alphanumeric(c: char) -> (r: bool)
    ensures
        r == alphanumeric(c),
{
    c.is_alphanumeric()
}

} // verus!
