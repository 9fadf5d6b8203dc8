//! Character-level text helpers shared by the attribute-list parser and
//! the typed value kinds: exact comparison, prefix matching, first-hit
//! search, and the double-quote delimiting of string-valued attributes.

use vstd::prelude::*;
use crate::error::Error;

verus! {

/// Exact character-for-character equality of two string slices.
pub fn str_eq(a: &str, b: &str) -> (r: bool)
    ensures
        r == (a@ == b@),
{
    let la = a.unicode_len();
    let lb = b.unicode_len();
    if la != lb {
        return false;
    }
    let mut i: usize = 0;
    while i < la
        invariant
            i <= la,
            la == a@.len(),
            la == b@.len(),
            forall|j: int| 0 <= j < i ==> a@[j] == b@[j],
        decreases la - i,
    {
        if a.get_char(i) != b.get_char(i) {
            return false;
        }
        i = i + 1;
    }
    proof {
        assert(a@ =~= b@);
    }
    true
}

/// Whether `s` begins with the characters of `p`.
pub fn starts_with_str(s: &str, p: &str) -> (r: bool)
    ensures
        r == (p@.len() <= s@.len() && s@.subrange(0, p@.len() as int) == p@),
{
    let ls = s.unicode_len();
    let lp = p.unicode_len();
    if lp > ls {
        return false;
    }
    let mut i: usize = 0;
    while i < lp
        invariant
            i <= lp,
            lp <= ls,
            ls == s@.len(),
            lp == p@.len(),
            forall|j: int| 0 <= j < i ==> s@[j] == p@[j],
        decreases lp - i,
    {
        if s.get_char(i) != p.get_char(i) {
            proof {
                assert(s@.subrange(0, p@.len() as int)[i as int] == s@[i as int]);
            }
            return false;
        }
        i = i + 1;
    }
    proof {
        assert(s@.subrange(0, p@.len() as int) =~= p@);
    }
    true
}

/// The index of the first occurrence of `c` in `s` at or after `i`,
/// or `s.len()` when there is none.
pub open spec fn find_char_from(s: Seq<char>, c: char, i: int) -> int
    decreases s.len() - i,
{
    if i < 0 || i >= s.len() {
        s.len() as int
    } else if s[i] == c {
        i
    } else {
        find_char_from(s, c, i + 1)
    }
}

/// `find_char_from` lands on a hit in bounds, and everything it skipped
/// misses.
pub proof fn lemma_find_char_bounds(s: Seq<char>, c: char, i: int)
    requires
        0 <= i <= s.len(),
    ensures
        i <= find_char_from(s, c, i) <= s.len(),
        find_char_from(s, c, i) < s.len() ==> s[find_char_from(s, c, i)] == c,
        forall|j: int| i <= j < find_char_from(s, c, i) ==> s[j] != c,
    decreases s.len() - i,
{
    if i < s.len() && s[i] != c {
        lemma_find_char_bounds(s, c, i + 1);
    }
}

/// When `c` first appears at `k`, the search from the start returns `k`;
/// when `c` never appears, it returns the length.
pub proof fn lemma_find_char_first(s: Seq<char>, c: char, i: int, k: int)
    requires
        0 <= i <= k <= s.len(),
        forall|j: int| i <= j < k ==> s[j] != c,
        k < s.len() ==> s[k] == c,
    ensures
        find_char_from(s, c, i) == if k < s.len() { k } else { s.len() as int },
    decreases k - i,
{
    if i < k {
        lemma_find_char_first(s, c, i + 1, k);
    }
}

/// The position of the first `c` in `s`, or its length when absent.
pub fn find_char(s: &str, c: char) -> (r: usize)
    ensures
        r as int == find_char_from(s@, c, 0),
{
    let len = s.unicode_len();
    let mut i: usize = 0;
    while i < len
        invariant
            i <= len,
            len == s@.len(),
            find_char_from(s@, c, 0) == find_char_from(s@, c, i as int),
        decreases len - i,
    {
        if s.get_char(i) == c {
            return i;
        }
        i = i + 1;
    }
    i
}

/// Whether `s` may stand between the delimiting quotes of a quoted
/// string: no embedded double quote, carriage return, or line feed.
pub open spec fn is_quotable(s: Seq<char>) -> bool {
    forall|i: int| 0 <= i < s.len() ==> #[trigger] s[i] != '"' && s[i] != '\r' && s[i] != '\n'
}

/// `s` wrapped in its two delimiting double quotes.
pub open spec fn quote_seq(s: Seq<char>) -> Seq<char> {
    seq!['"'] + s + seq!['"']
}

/// The decoded value of a quoted-string wire form: the text between the
/// two delimiting quotes, defined only when the delimiters are present
/// and the inside is quotable.
pub open spec fn unquote_spec(s: Seq<char>) -> Option<Seq<char>> {
    if s.len() >= 2 && s[0] == '"' && s[s.len() - 1] == '"'
        && is_quotable(s.subrange(1, s.len() - 1)) {
        Some(s.subrange(1, s.len() - 1))
    } else {
        None
    }
}

/// Quoting a quotable text and decoding it again returns the text.
pub proof fn lemma_unquote_quote(s: Seq<char>)
    requires
        is_quotable(s),
    ensures
        unquote_spec(quote_seq(s)) == Some(s),
{
    let q = quote_seq(s);
    assert(q[0] == '"');
    assert(q[q.len() - 1] == '"');
    assert(q.subrange(1, q.len() - 1) =~= s);
}

/// Renders a value in its quoted wire form.
pub fn quote(s: &str) -> (r: String)
    ensures
        r@ == quote_seq(s@),
{
    proof {
        reveal_strlit("\"");
    }
    let mut r = String::from_str("\"");
    r.append(s);
    r.append("\"");
    proof {
        assert(r@ =~= quote_seq(s@));
    }
    r
}

/// Decodes a quoted wire form, rejecting missing delimiters and any
/// embedded quote, carriage return, or line feed.
pub fn unquote(s: &str) -> (r: Result<String, Error>)
    ensures
        match r {
            Ok(t) => unquote_spec(s@) == Some(t@),
            Err(e) => {
                &&& unquote_spec(s@) is None
                &&& e is InvalidInput
                &&& e.detail_view() == s@
            },
        },
{
    let len = s.unicode_len();
    if len < 2 {
        return Err(Error::InvalidInput(String::from_str(s)));
    }
    if s.get_char(0) != '"' || s.get_char(len - 1) != '"' {
        return Err(Error::InvalidInput(String::from_str(s)));
    }
    let mut i: usize = 1;
    while i < len - 1
        invariant
            1 <= i <= len - 1,
            len == s@.len(),
            len >= 2,
            forall|j: int| 1 <= j < i ==> #[trigger] s@[j] != '"' && s@[j] != '\r' && s@[j] != '\n',
        decreases len - i,
    {
        let c = s.get_char(i);
        if c == '"' || c == '\r' || c == '\n' {
            proof {
                let inner = s@.subrange(1, s@.len() - 1);
                assert(inner[i - 1] == s@[i as int]);
                assert(!is_quotable(inner));
            }
            return Err(Error::InvalidInput(String::from_str(s)));
        }
        i = i + 1;
    }
    let inner = s.substring_char(1, len - 1);
    proof {
        let v = s@.subrange(1, s@.len() - 1);
        assert(forall|j: int| 0 <= j < v.len() ==> v[j] == s@[j + 1]);
        assert(is_quotable(v));
    }
    Ok(String::from_str(inner))
}

} // verus!
