//! Character-level helpers: unsigned decimal parsing and whitespace trimming,
//! each proved against a direct specification.

use vstd::prelude::*;

verus! {

/// A decimal digit.
pub open spec fn is_digit(c: char) -> bool {
    '0' as int <= c as int <= '9' as int
}

/// The numeric value of a decimal digit.
pub open spec fn digit_val(c: char) -> int {
    c as int - '0' as int
}

/// Whether every character of `s` is a decimal digit.
pub open spec fn all_digits(s: Seq<char>) -> bool {
    forall|i: int| 0 <= i < s.len() ==> is_digit(#[trigger] s[i])
}

/// The value of a digit string, most significant digit first.
pub open spec fn digits_val(s: Seq<char>) -> int
    decreases s.len(),
{
    if s.len() == 0 {
        0
    } else {
        digits_val(s.drop_last()) * 10 + digit_val(s.last())
    }
}

/// The unsigned integer denoted by `s`, if any: an optional leading `+`,
/// then one or more decimal digits whose value fits in a `u64`.
pub open spec fn spec_parse_u64(s: Seq<char>) -> Option<u64> {
    let body = if s.len() > 0 && s[0] == '+' {
        s.drop_first()
    } else {
        s
    };
    if body.len() > 0 && all_digits(body) && digits_val(body) <= u64::MAX {
        Some(digits_val(body) as u64)
    } else {
        None
    }
}

/// A digit string has a non-negative value.
proof fn lemma_digits_val_nonneg(s: Seq<char>)
    requires
        all_digits(s),
    ensures
        digits_val(s) >= 0,
    decreases s.len(),
{
    if s.len() > 0 {
        assert(all_digits(s.drop_last()));
        lemma_digits_val_nonneg(s.drop_last());
    }
}

/// The value of a prefix of a digit string never exceeds the whole value.
proof fn lemma_digits_val_prefix(s: Seq<char>, j: int)
    requires
        all_digits(s),
        0 <= j <= s.len(),
    ensures
        digits_val(s.subrange(0, j)) <= digits_val(s),
    decreases s.len(),
{
    if j == s.len() {
        assert(s.subrange(0, j) =~= s);
    } else {
        let t = s.drop_last();
        assert(all_digits(t));
        assert(s.subrange(0, j) =~= t.subrange(0, j));
        lemma_digits_val_prefix(t, j);
        lemma_digits_val_nonneg(t);
        assert(digits_val(t) <= digits_val(t) * 10) by {
            assert(digits_val(t) >= 0);
        }
    }
}

/// Parses an unsigned decimal integer exactly as [`spec_parse_u64`] states:
/// an optional leading `+`, then digits; `None` on any other character, on an
/// empty digit string, and on overflow.
pub fn parse_u64(s: &str) -> (r: Option<u64>)
    ensures
        r == spec_parse_u64(s@),
{
    let len = s.unicode_len();
    let mut i: usize = 0;
    if len > 0 && s.get_char(0) == '+' {
        i = 1;
    }
    let ghost body: Seq<char> = if i == 1 { s@.drop_first() } else { s@ };
    let ghost off: int = i as int;
    if i >= len {
        return None;
    }
    let mut acc: u64 = 0;
    while i < len
        invariant
            off <= i <= len,
            len == s@.len(),
            off == 0 || off == 1,
            off == 1 ==> s@.len() > 0 && s@[0] == '+',
            off == 0 ==> !(s@.len() > 0 && s@[0] == '+'),
            off == 1 ==> body == s@.drop_first(),
            off == 0 ==> body == s@,
            body.len() == len - off,
            forall|k: int| 0 <= k < body.len() ==> body[k] == s@[k + off],
            all_digits(body.subrange(0, i - off)),
            acc == digits_val(body.subrange(0, i - off)),
        decreases len - i,
    {
        let c = s.get_char(i);
        let cu = c as u32;
        if cu < '0' as u32 || cu > '9' as u32 {
            proof {
                assert(!is_digit(body[i - off]));
                assert(!all_digits(body));
            }
            return None;
        }
        let d = (cu - '0' as u32) as u64;
        let ghost p = body.subrange(0, i - off);
        let ghost q = body.subrange(0, i + 1 - off);
        proof {
            assert(is_digit(c));
            assert(d == digit_val(c));
            assert(q =~= p.push(body[i - off]));
            assert(q.drop_last() =~= p);
            assert(digits_val(q) == acc * 10 + d);
            assert(all_digits(q));
        }
        if acc > u64::MAX / 10 {
            proof {
                assert(digits_val(q) > u64::MAX);
                if all_digits(body) {
                    lemma_digits_val_prefix(body, i + 1 - off);
                }
            }
            return None;
        }
        let acc10 = acc * 10;
        if d > u64::MAX - acc10 {
            proof {
                assert(digits_val(q) > u64::MAX);
                if all_digits(body) {
                    lemma_digits_val_prefix(body, i + 1 - off);
                }
            }
            return None;
        }
        acc = acc10 + d;
        i = i + 1;
    }
    proof {
        assert(body.subrange(0, len - off) =~= body);
    }
    Some(acc)
}

/// A blank character for the purpose of trimming.
pub open spec fn is_blank(c: char) -> bool {
    c == ' ' || c == '\t' || c == '\n' || c == '\r'
}

/// The first index at or after `i` holding a non-blank character, or the
/// length if there is none.
pub open spec fn first_non_blank(s: Seq<char>, i: int) -> int
    decreases s.len() - i,
{
    if i < 0 || i >= s.len() {
        s.len() as int
    } else if !is_blank(s[i]) {
        i
    } else {
        first_non_blank(s, i + 1)
    }
}

/// One past the last index below `j` holding a non-blank character, or 0 if
/// there is none.
pub open spec fn last_non_blank(s: Seq<char>, j: int) -> int
    decreases j,
{
    if j <= 0 || j > s.len() {
        0
    } else if !is_blank(s[j - 1]) {
        j
    } else {
        last_non_blank(s, j - 1)
    }
}

/// `s` with leading and trailing blanks removed.
pub open spec fn spec_trim(s: Seq<char>) -> Seq<char> {
    let a = first_non_blank(s, 0);
    if a == s.len() {
        Seq::empty()
    } else {
        s.subrange(a, last_non_blank(s, s.len() as int))
    }
}

/// Whether `c` is a blank character, as [`is_blank`] states.
pub fn blank_char(c: char) -> (r: bool)
    ensures
        r == is_blank(c),
{
    c == ' ' || c == '\t' || c == '\n' || c == '\r'
}

/// Returns a copy of `s` with leading and trailing blanks removed, exactly as
/// [`spec_trim`] states.
pub fn trimmed(s: &str) -> (r: String)
    ensures
        r@ == spec_trim(s@),
{
    let len = s.unicode_len();
    let mut a: usize = 0;
    while a < len && blank_char(s.get_char(a))
        invariant
            0 <= a <= len,
            len == s@.len(),
            first_non_blank(s@, 0) == first_non_blank(s@, a as int),
        decreases len - a,
    {
        a = a + 1;
    }
    if a == len {
        proof {
            assert(first_non_blank(s@, a as int) == s@.len());
        }
        return String::new();
    }
    proof {
        assert(!is_blank(s@[a as int]));
        assert(first_non_blank(s@, 0) == a as int);
    }
    let mut b: usize = len;
    while b > a && blank_char(s.get_char(b - 1))
        invariant
            a < len,
            a < b <= len,
            len == s@.len(),
            !is_blank(s@[a as int]),
            last_non_blank(s@, len as int) == last_non_blank(s@, b as int),
        decreases b,
    {
        proof {
            assert(last_non_blank(s@, b as int) == last_non_blank(s@, b - 1));
        }
        b = b - 1;
    }
    proof {
        assert(!is_blank(s@[b - 1]));
        assert(last_non_blank(s@, b as int) == b as int);
    }
    s.substring_char(a, b).to_owned()
}

} // verus!
