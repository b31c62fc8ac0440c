//! Decimal numerals: parsing a digit string into a bounded value and
//! rendering a value back as its decimal numeral.

use vstd::prelude::*;

verus! {

/// Largest value a size parameter may carry; dimensions above this are
/// rejected as malformed.
pub const MAX_DIMENSION: u64 = 2147483647;

pub open spec fn is_digit(c: char) -> bool {
    48 <= c as u32 <= 57
}

pub open spec fn digit_val(c: char) -> int {
    c as u32 - 48
}

/// A non-empty string of decimal digits.
pub open spec fn is_digits(s: Seq<char>) -> bool {
    s.len() > 0 && forall|i: int| 0 <= i < s.len() ==> is_digit(#[trigger] s[i])
}

/// Value of a digit string read in base ten.
pub open spec fn dec_val(s: Seq<char>) -> int
    decreases s.len(),
{
    if s.len() == 0 {
        0
    } else {
        dec_val(s.drop_last()) * 10 + digit_val(s.last())
    }
}

pub proof fn lemma_dec_val_nonneg(s: Seq<char>)
    requires
        forall|i: int| 0 <= i < s.len() ==> is_digit(#[trigger] s[i]),
    ensures
        dec_val(s) >= 0,
    decreases s.len(),
{
    if s.len() > 0 {
        assert(forall|i: int| 0 <= i < s.drop_last().len() ==> is_digit(#[trigger] s.drop_last()[i]));
        lemma_dec_val_nonneg(s.drop_last());
    }
}

/// Reading more digits can only increase the value.
pub proof fn lemma_dec_val_prefix_le(s: Seq<char>, k: int)
    requires
        0 <= k <= s.len(),
        forall|i: int| 0 <= i < s.len() ==> is_digit(#[trigger] s[i]),
    ensures
        dec_val(s.subrange(0, k)) <= dec_val(s),
    decreases s.len() - k,
{
    if k == s.len() {
        assert(s.subrange(0, k) =~= s);
    } else {
        lemma_dec_val_prefix_le(s, k + 1);
        let t = s.subrange(0, k + 1);
        assert(t.drop_last() =~= s.subrange(0, k));
        assert(forall|i: int| 0 <= i < s.subrange(0, k).len()
            ==> is_digit(#[trigger] s.subrange(0, k)[i]));
        lemma_dec_val_nonneg(s.subrange(0, k));
        assert(dec_val(t) == dec_val(s.subrange(0, k)) * 10 + digit_val(s[k]));
    }
}

/// Parse a non-empty, all-digit string whose value is at most
/// `MAX_DIMENSION`; reject everything else.
pub fn parse_dec(s: &str) -> (r: Option<u64>)
    ensures
        match r {
            Some(v) => is_digits(s@) && v == dec_val(s@) && v <= MAX_DIMENSION,
            None => !(is_digits(s@) && dec_val(s@) <= MAX_DIMENSION),
        },
{
    let n: usize = s.unicode_len();
    if n == 0 {
        return None;
    }
    let mut acc: u64 = 0;
    let mut i: usize = 0;
    while i < n
        invariant
            n == s@.len(),
            0 < n,
            i <= n,
            forall|j: int| 0 <= j < i ==> is_digit(#[trigger] s@[j]),
            acc == dec_val(s@.subrange(0, i as int)),
            acc <= MAX_DIMENSION,
        decreases n - i,
    {
        let c: char = s.get_char(i);
        let d: u32 = c as u32;
        if d < 48 || d > 57 {
            return None;
        }
        let step: u64 = acc * 10 + ((d - 48) as u64);
        proof {
            let t = s@.subrange(0, i as int + 1);
            assert(t.drop_last() =~= s@.subrange(0, i as int));
            assert(t.last() == s@[i as int]);
        }
        if step > MAX_DIMENSION {
            proof {
                if is_digits(s@) {
                    lemma_dec_val_prefix_le(s@, i as int + 1);
                }
            }
            return None;
        }
        acc = step;
        i = i + 1;
    }
    proof {
        assert(s@.subrange(0, n as int) =~= s@);
    }
    Some(acc)
}

/// The character for one digit.
pub open spec fn digit_char(d: int) -> char {
    if d == 0 { '0' }
    else if d == 1 { '1' }
    else if d == 2 { '2' }
    else if d == 3 { '3' }
    else if d == 4 { '4' }
    else if d == 5 { '5' }
    else if d == 6 { '6' }
    else if d == 7 { '7' }
    else if d == 8 { '8' }
    else { '9' }
}

/// The lower-case hexadecimal character for one value below sixteen.
pub open spec fn hex_char(d: int) -> char {
    if d < 10 { digit_char(d) }
    else if d == 10 { 'a' }
    else if d == 11 { 'b' }
    else if d == 12 { 'c' }
    else if d == 13 { 'd' }
    else if d == 14 { 'e' }
    else { 'f' }
}

/// Decimal numeral of a non-negative value.
pub open spec fn dec_str_of(n: int) -> Seq<char>
    decreases n,
{
    if n < 10 {
        seq![digit_char(n)]
    } else {
        dec_str_of(n / 10) + seq![digit_char(n % 10)]
    }
}

fn digit_str(d: u64) -> (r: &'static str)
    requires
        d < 10,
    ensures
        r@ == seq![digit_char(d as int)],
{
    proof {
        reveal_strlit("0");
        reveal_strlit("1");
        reveal_strlit("2");
        reveal_strlit("3");
        reveal_strlit("4");
        reveal_strlit("5");
        reveal_strlit("6");
        reveal_strlit("7");
        reveal_strlit("8");
        reveal_strlit("9");
    }
    if d == 0 { let r = "0"; proof { assert(r@ =~= seq![digit_char(d as int)]); } r }
    else if d == 1 { let r = "1"; proof { assert(r@ =~= seq![digit_char(d as int)]); } r }
    else if d == 2 { let r = "2"; proof { assert(r@ =~= seq![digit_char(d as int)]); } r }
    else if d == 3 { let r = "3"; proof { assert(r@ =~= seq![digit_char(d as int)]); } r }
    else if d == 4 { let r = "4"; proof { assert(r@ =~= seq![digit_char(d as int)]); } r }
    else if d == 5 { let r = "5"; proof { assert(r@ =~= seq![digit_char(d as int)]); } r }
    else if d == 6 { let r = "6"; proof { assert(r@ =~= seq![digit_char(d as int)]); } r }
    else if d == 7 { let r = "7"; proof { assert(r@ =~= seq![digit_char(d as int)]); } r }
    else if d == 8 { let r = "8"; proof { assert(r@ =~= seq![digit_char(d as int)]); } r }
    else { let r = "9"; proof { assert(r@ =~= seq![digit_char(d as int)]); } r }
}

/// The lower-case hexadecimal digit of a value below sixteen.
pub fn hex_lower_str(d: u32) -> (r: &'static str)
    requires
        d < 16,
    ensures
        r@ == seq![hex_char(d as int)],
{
    proof {
        reveal_strlit("a");
        reveal_strlit("b");
        reveal_strlit("c");
        reveal_strlit("d");
        reveal_strlit("e");
        reveal_strlit("f");
    }
    if d < 10 { digit_str(d as u64) }
    else if d == 10 { let r = "a"; proof { assert(r@ =~= seq![hex_char(d as int)]); } r }
    else if d == 11 { let r = "b"; proof { assert(r@ =~= seq![hex_char(d as int)]); } r }
    else if d == 12 { let r = "c"; proof { assert(r@ =~= seq![hex_char(d as int)]); } r }
    else if d == 13 { let r = "d"; proof { assert(r@ =~= seq![hex_char(d as int)]); } r }
    else if d == 14 { let r = "e"; proof { assert(r@ =~= seq![hex_char(d as int)]); } r }
    else { let r = "f"; proof { assert(r@ =~= seq![hex_char(d as int)]); } r }
}

/// Render `n` as its decimal numeral.
pub fn u64_to_string(n: u64) -> (r: String)
    ensures
        r@ == dec_str_of(n as int),
    decreases n,
{
    if n < 10 {
        digit_str(n).to_owned()
    } else {
        let q: String = u64_to_string(n / 10);
        q.concat(digit_str(n % 10))
    }
}

} // verus!

