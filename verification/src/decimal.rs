//! Decimal integer literals on the wire: parsing into `u64` and the
//! canonical digit rendering, with the round-trip proof connecting them.

use vstd::prelude::*;
use crate::error::Error;

verus! {

/// Whether `c` is one of the ten decimal digit characters.
pub open spec fn is_dec_digit(c: char) -> bool {
    '0' <= c && c <= '9'
}

/// The numeric value of a decimal digit character.
pub open spec fn dec_digit_val(c: char) -> int {
    c as int - '0' as int
}

/// Whether `s` is a non-empty run of decimal digits.
pub open spec fn is_dec_str(s: Seq<char>) -> bool {
    s.len() > 0 && forall|i: int| 0 <= i < s.len() ==> is_dec_digit(#[trigger] s[i])
}

/// The numeric value of a digit string, most significant digit first.
pub open spec fn dec_val(s: Seq<char>) -> int
    decreases s.len(),
{
    if s.len() == 0 {
        0
    } else {
        dec_val(s.drop_last()) * 10 + dec_digit_val(s.last())
    }
}

/// The digit character for a value in `0..10`.
pub open spec fn dec_digit_char(n: int) -> char {
    if n == 0 { '0' }
    else if n == 1 { '1' }
    else if n == 2 { '2' }
    else if n == 3 { '3' }
    else if n == 4 { '4' }
    else if n == 5 { '5' }
    else if n == 6 { '6' }
    else if n == 7 { '7' }
    else if n == 8 { '8' }
    else { '9' }
}

/// The canonical (shortest, no leading zero) decimal rendering of `n >= 0`.
pub open spec fn dec_render(n: int) -> Seq<char>
    decreases n,
{
    if n < 10 {
        seq![dec_digit_char(n)]
    } else {
        dec_render(n / 10).push(dec_digit_char(n % 10))
    }
}

/// Canonical renderings are digit runs whose value is the rendered number.
pub proof fn lemma_dec_render_val(n: int)
    requires
        n >= 0,
    ensures
        is_dec_str(dec_render(n)),
        dec_val(dec_render(n)) == n,
    decreases n,
{
    if n < 10 {
        let s = dec_render(n);
        assert(s.drop_last() =~= Seq::<char>::empty());
        assert(s.last() == dec_digit_char(n));
        assert(is_dec_digit(dec_digit_char(n)));
        assert(dec_digit_val(dec_digit_char(n)) == n);
        assert(dec_val(s) == dec_val(s.drop_last()) * 10 + dec_digit_val(s.last()));
        assert(dec_val(s.drop_last()) == 0);
    } else {
        lemma_dec_render_val(n / 10);
        let a = dec_render(n / 10);
        let s = dec_render(n);
        assert(s.drop_last() =~= a);
        assert(s.last() == dec_digit_char(n % 10));
        assert(dec_digit_val(dec_digit_char(n % 10)) == n % 10);
        assert(dec_val(s) == (n / 10) * 10 + n % 10);
        assert(forall|i: int| 0 <= i < s.len() ==> is_dec_digit(#[trigger] s[i]));
    }
}

/// A digit as a one-character string slice.
fn digit_str(d: u64) -> (r: &'static str)
    requires
        d < 10,
    ensures
        r@ =~= seq![dec_digit_char(d as int)],
{
    proof {
        reveal_strlit("0");
        reveal_strlit("1");
        reveal_strlit("2");
        reveal_strlit("3");
        reveal_strlit("4");
        reveal_strlit("5");
        reveal_strlit("6");
        reveal_strlit("7");
        reveal_strlit("8");
        reveal_strlit("9");
    }
    match d {
        0 => "0",
        1 => "1",
        2 => "2",
        3 => "3",
        4 => "4",
        5 => "5",
        6 => "6",
        7 => "7",
        8 => "8",
        _ => "9",
    }
}

/// Renders `n` as its canonical decimal digit string.
pub fn render_u64(n: u64) -> (r: String)
    ensures
        r@ == dec_render(n as int),
    decreases n,
{
    if n < 10 {
        String::from_str(digit_str(n))
    } else {
        let mut s = render_u64(n / 10);
        s.append(digit_str(n % 10));
        proof {
            assert(s@ =~= dec_render((n / 10) as int).push(dec_digit_char((n % 10) as int)));
            assert((n / 10) as int == (n as int) / 10);
            assert((n % 10) as int == (n as int) % 10);
        }
        s
    }
}

/// Parses a non-empty digit string into a `u64`; any other text, and any
/// value above `u64::MAX`, is invalid input.
pub fn parse_u64(s: &str) -> (r: Result<u64, Error>)
    ensures
        match r {
            Ok(n) => is_dec_str(s@) && dec_val(s@) == n as int,
            Err(e) => {
                &&& !(is_dec_str(s@) && dec_val(s@) <= u64::MAX)
                &&& e is InvalidInput
                &&& e.detail_view() == s@
            },
        },
{
    let len = s.unicode_len();
    if len == 0 {
        return Err(Error::InvalidInput(String::from_str(s)));
    }
    let mut acc: u64 = 0;
    let mut over: bool = false;
    let mut i: usize = 0;
    while i < len
        invariant
            i <= len,
            len == s@.len(),
            forall|j: int| 0 <= j < i ==> is_dec_digit(#[trigger] s@[j]),
            !over ==> acc as int == dec_val(s@.subrange(0, i as int)),
            over ==> dec_val(s@.subrange(0, i as int)) > u64::MAX,
        decreases len - i,
    {
        let c = s.get_char(i);
        let u = c as u32;
        if !(48 <= u && u <= 57) {
            proof {
                assert(!is_dec_digit(s@[i as int]));
            }
            return Err(Error::InvalidInput(String::from_str(s)));
        }
        let d: u64 = (u - 48) as u64;
        proof {
            assert(is_dec_digit(s@[i as int]));
            assert(d as int == dec_digit_val(s@[i as int]));
            let pre = s@.subrange(0, i as int);
            let cur = s@.subrange(0, i as int + 1);
            assert(cur.drop_last() =~= pre);
            assert(cur.last() == s@[i as int]);
            assert(dec_val(cur) == dec_val(pre) * 10 + d as int);
        }
        if over {
            proof {
                let pre = s@.subrange(0, i as int);
                assert(dec_val(pre) * 10 + d as int > u64::MAX);
            }
        } else if acc > 1844674407370955161u64 || (acc == 1844674407370955161u64 && d > 5) {
            proof {
                assert(acc as int * 10 + d as int > u64::MAX);
            }
            over = true;
        } else {
            proof {
                assert(acc as int * 10 + d as int <= u64::MAX);
            }
            acc = acc * 10 + d;
        }
        i = i + 1;
    }
    proof {
        assert(s@.subrange(0, len as int) =~= s@);
    }
    if over {
        Err(Error::InvalidInput(String::from_str(s)))
    } else {
        Ok(acc)
    }
}

} // verus!
