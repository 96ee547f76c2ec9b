//! The expression evaluator. The dialect is deliberately small and fully
//! specified: a request line is a decimal literal of at most eighteen
//! digits, or the sum of two such literals joined by `+`; a line that
//! contains `:` is an assignment statement and evaluates to the nil value,
//! which produces no output; anything else evaluates to the distinguished
//! error value, whose rendered text is `error`. Every literal fits a
//! 64-bit integer and no sum can overflow, so evaluation is total.

use vstd::prelude::*;
use vstd::slice::slice_subrange;

use crate::value::{RayObj, RayVal};

verus! {

/// An ASCII decimal digit.
pub open spec fn is_digit(b: u8) -> bool {
    48 <= b <= 57
}

/// Every byte is an ASCII decimal digit.
pub open spec fn all_digits(s: Seq<u8>) -> bool {
    forall|i: int| 0 <= i < s.len() ==> is_digit(#[trigger] s[i])
}

/// A decimal literal of the dialect: one to eighteen digits.
pub open spec fn is_literal(s: Seq<u8>) -> bool {
    1 <= s.len() <= 18 && all_digits(s)
}

/// The value of a digit string, most significant digit first.
pub open spec fn digits_val(s: Seq<u8>) -> int
    decreases s.len(),
{
    if s.len() == 0 {
        0
    } else {
        digits_val(s.drop_last()) * 10 + (s.last() - 48)
    }
}

/// Whether the line contains `:`, marking an assignment statement.
pub open spec fn has_colon(s: Seq<u8>) -> bool {
    exists|i: int| 0 <= i < s.len() && s[i] == 58
}

/// The index of the first `+`, or the length when there is none.
pub open spec fn find_plus(s: Seq<u8>) -> int
    decreases s.len(),
{
    if s.len() == 0 {
        0
    } else if s[0] == 43 {
        0
    } else {
        1 + find_plus(s.drop_first())
    }
}

/// The rendered text of the error value: `error`.
pub open spec fn error_text() -> Seq<u8> {
    seq![101u8, 114u8, 114u8, 111u8, 114u8]
}

/// The value of one request line.
pub open spec fn eval_spec(s: Seq<u8>) -> RayVal {
    if has_colon(s) {
        RayVal::Null
    } else {
        let p = find_plus(s);
        if p == s.len() {
            if is_literal(s) {
                RayVal::I64(digits_val(s) as i64)
            } else {
                RayVal::Bytes(error_text())
            }
        } else {
            if is_literal(s.take(p)) && is_literal(s.skip(p + 1)) {
                RayVal::I64((digits_val(s.take(p)) + digits_val(s.skip(p + 1))) as i64)
            } else {
                RayVal::Bytes(error_text())
            }
        }
    }
}

/// The value of evaluating a code value: text evaluates as a request
/// line, and any non-text code value is rejected with the error value.
pub open spec fn eval_obj_spec(code: RayVal) -> RayVal {
    match code {
        RayVal::Bytes(s) => eval_spec(s),
        _ => RayVal::Bytes(error_text()),
    }
}

/// Ten to the power `k`.
spec fn pow10(k: nat) -> int
    decreases k,
{
    if k == 0 {
        1
    } else {
        10 * pow10((k - 1) as nat)
    }
}

proof fn lemma_pow10_pos(k: nat)
    ensures
        pow10(k) >= 1,
    decreases k,
{
    if k > 0 {
        lemma_pow10_pos((k - 1) as nat);
    }
}

proof fn lemma_pow10_mono(a: nat, b: nat)
    requires
        a <= b,
    ensures
        pow10(a) <= pow10(b),
    decreases b,
{
    if a < b {
        lemma_pow10_mono(a, (b - 1) as nat);
        lemma_pow10_pos((b - 1) as nat);
    }
}

proof fn lemma_pow10_18()
    ensures
        pow10(18) == 1000000000000000000,
{
    reveal_with_fuel(pow10, 20);
}

/// The value of a digit string is bounded by ten to its length.
proof fn lemma_digits_val_bound(s: Seq<u8>)
    requires
        all_digits(s),
    ensures
        0 <= digits_val(s) < pow10(s.len()),
    decreases s.len(),
{
    if s.len() > 0 {
        assert(all_digits(s.drop_last())) by {
            assert(forall|i: int|
                0 <= i < s.len() - 1 ==> s.drop_last()[i] == #[trigger] s[i]);
        }
        lemma_digits_val_bound(s.drop_last());
        assert(is_digit(s.last()));
    }
}

proof fn lemma_digits_val_push(t: Seq<u8>, b: u8)
    ensures
        digits_val(t.push(b)) == digits_val(t) * 10 + (b - 48),
{
    assert(t.push(b).drop_last() =~= t);
    assert(t.push(b).last() == b);
}

/// `find_plus` is the unique index below which no `+` occurs.
proof fn lemma_find_plus_char(s: Seq<u8>, p: int)
    requires
        0 <= p <= s.len(),
        p < s.len() ==> s[p] == 43,
        forall|j: int| 0 <= j < p ==> s[j] != 43,
    ensures
        find_plus(s) == p,
    decreases s.len(),
{
    if s.len() == 0 {
    } else if s[0] == 43 {
        assert(p == 0);
    } else {
        let t = s.drop_first();
        assert(forall|j: int| 0 <= j < p - 1 ==> t[j] == #[trigger] s[j + 1]);
        lemma_find_plus_char(t, p - 1);
    }
}

/// Parse a decimal literal of the dialect; `None` exactly when the bytes
/// are not such a literal.
fn parse_literal(s: &[u8]) -> (r: Option<i64>)
    ensures
        is_literal(s@) ==> (r matches Some(v) && v == digits_val(s@) && 0 <= v
            < 1000000000000000000),
        !is_literal(s@) ==> r is None,
{
    proof {
        lemma_pow10_18();
    }
    if s.len() < 1 || s.len() > 18 {
        return None;
    }
    let mut i: usize = 0;
    let mut acc: i64 = 0;
    while i < s.len()
        invariant
            i <= s.len() <= 18,
            all_digits(s@.take(i as int)),
            acc == digits_val(s@.take(i as int)),
            0 <= acc < pow10(i as nat),
            pow10(18) == 1000000000000000000,
        decreases s.len() - i,
    {
        let b: u8 = s[i];
        if b < 48 || b > 57 {
            assert(!is_digit(s@[i as int]));
            return None;
        }
        proof {
            lemma_digits_val_push(s@.take(i as int), b);
            assert(s@.take(i + 1 as int) =~= s@.take(i as int).push(b));
            lemma_pow10_mono((i + 1) as nat, 18);
            assert(pow10((i + 1) as nat) == 10 * pow10(i as nat));
        }
        acc = acc * 10 + ((b - 48) as i64);
        i = i + 1;
    }
    proof {
        assert(s@.take(i as int) =~= s@);
        lemma_pow10_mono(s@.len(), 18);
    }
    Some(acc)
}

/// The error value.
pub(crate) fn error_obj() -> (r: RayObj)
    ensures
        r@ == RayVal::Bytes(error_text()),
{
    let mut text: Vec<u8> = Vec::new();
    text.push(101u8);
    text.push(114u8);
    text.push(114u8);
    text.push(111u8);
    text.push(114u8);
    proof {
        assert(text@ =~= error_text());
    }
    RayObj::from_bytes(text)
}

/// Evaluate one request line.
pub fn eval_bytes(s: &[u8]) -> (r: RayObj)
    ensures
        r@ == eval_spec(s@),
{
    let mut i: usize = 0;
    while i < s.len()
        invariant
            i <= s.len(),
            forall|j: int| 0 <= j < i ==> s@[j] != 58,
        decreases s.len() - i,
    {
        if s[i] == 58 {
            assert(has_colon(s@));
            return RayObj::null();
        }
        i = i + 1;
    }
    assert(!has_colon(s@));
    let mut p: usize = 0;
    while p < s.len() && s[p] != 43
        invariant
            p <= s.len(),
            forall|j: int| 0 <= j < p ==> s@[j] != 43,
        decreases s.len() - p,
    {
        p = p + 1;
    }
    proof {
        lemma_find_plus_char(s@, p as int);
    }
    if p == s.len() {
        match parse_literal(s) {
            Some(v) => RayObj::from(v),
            None => error_obj(),
        }
    } else {
        let a = slice_subrange(s, 0, p);
        let b = slice_subrange(s, p + 1, s.len());
        proof {
            assert(a@ =~= s@.take(p as int));
            assert(b@ =~= s@.skip(p + 1 as int));
        }
        let left = parse_literal(a);
        let right = parse_literal(b);
        match (left, right) {
            (Some(x), Some(y)) => RayObj::from(x + y),
            _ => error_obj(),
        }
    }
}

} // verus!
