use vstd::prelude::*;
use vstd::string::StrSliceExecFns;

verus! {

/// A decimal digit character.
pub open spec fn is_digit(c: char) -> bool {
    '0' <= c && c <= '9'
}

/// The value of a sequence of digit characters read as a decimal numeral.
pub open spec fn dec_val(s: Seq<char>) -> int
    decreases s.len(),
{
    if s.len() == 0 {
        0
    } else {
        10 * dec_val(s.drop_last()) + (s.last() as int - 48)
    }
}

/// The digit characters of an integer numeral: everything after an optional
/// leading sign.
pub open spec fn digits_of(s: Seq<char>) -> Seq<char> {
    if s.len() > 0 && (s[0] == '-' || s[0] == '+') {
        s.subrange(1, s.len() as int)
    } else {
        s
    }
}

/// Whether `s` is an integer numeral: an optional sign followed by one or
/// more decimal digits, nothing else. This is the grammar that
/// `str::parse` accepts for the signed integer types.
pub open spec fn is_int_text(s: Seq<char>) -> bool {
    let digits = digits_of(s);
    digits.len() > 0 && (forall|i: int| 0 <= i < digits.len() ==> is_digit(digits[i]))
}

/// The mathematical value of an integer numeral.
pub open spec fn int_text_value(s: Seq<char>) -> int {
    if s.len() > 0 && s[0] == '-' {
        -dec_val(digits_of(s))
    } else {
        dec_val(digits_of(s))
    }
}

proof fn lemma_dec_val_nonneg(s: Seq<char>)
    requires
        forall|i: int| 0 <= i < s.len() ==> is_digit(s[i]),
    ensures
        dec_val(s) >= 0,
    decreases s.len(),
{
    if s.len() > 0 {
        lemma_dec_val_nonneg(s.drop_last());
    }
}

/// A numeral only grows as digits are appended: the value of a prefix of a
/// digit sequence is no more than the value of the whole.
proof fn lemma_dec_val_prefix(s: Seq<char>, k: int)
    requires
        0 <= k <= s.len(),
        forall|i: int| 0 <= i < s.len() ==> is_digit(s[i]),
    ensures
        dec_val(s.subrange(0, k)) <= dec_val(s),
    decreases s.len() - k,
{
    if k == s.len() {
        assert(s.subrange(0, k) =~= s);
    } else {
        lemma_dec_val_prefix(s, k + 1);
        let shorter = s.subrange(0, k);
        let longer = s.subrange(0, k + 1);
        assert(longer.drop_last() =~= shorter);
        assert(forall|i: int| 0 <= i < shorter.len() ==> is_digit(shorter[i]));
        lemma_dec_val_nonneg(shorter);
        assert(dec_val(longer) == 10 * dec_val(shorter) + (longer.last() as int - 48));
    }
}

/// Compare two strings character by character.
pub fn str_eq(a: &str, b: &str) -> (r: bool)
    ensures
        r == (a@ == b@),
{
    let alen = a.unicode_len();
    let blen = b.unicode_len();
    if alen != blen {
        return false;
    }
    let mut i: usize = 0;
    while i < alen
        invariant
            i <= alen,
            alen == a@.len(),
            alen == b@.len(),
            forall|j: int| 0 <= j < i ==> a@[j] == b@[j],
        decreases alen - i,
    {
        if a.get_char(i) != b.get_char(i) {
            return false;
        }
        i += 1;
    }
    proof {
        assert(a@ =~= b@);
    }
    true
}

/// Parse an integer numeral as `str::parse::<i32>` does: `Some` exactly on
/// an optional sign followed by digits whose value fits in an `i32`.
pub fn parse_i32(s: &str) -> (r: Option<i32>)
    ensures
        (r is Some) <==> (is_int_text(s@) && i32::MIN <= int_text_value(s@) <= i32::MAX),
        r matches Some(v) ==> v as int == int_text_value(s@),
{
    let n = s.unicode_len();
    if n == 0 {
        return None;
    }
    let c0 = s.get_char(0);
    let neg: bool = c0 == '-';
    let start: usize = if c0 == '-' || c0 == '+' {
        1
    } else {
        0
    };
    if n == start {
        // A sign with no digits after it.
        return None;
    }
    let ghost digits = digits_of(s@);
    proof {
        assert(digits =~= s@.subrange(start as int, n as int));
    }
    let mut acc: u64 = 0;
    let mut i: usize = start;
    while i < n
        invariant
            start <= i <= n,
            n == s@.len(),
            start < n,
            start <= 1,
            digits == digits_of(s@),
            digits =~= s@.subrange(start as int, n as int),
            neg == (s@[0] == '-'),
            (start == 1) == (s@[0] == '-' || s@[0] == '+'),
            forall|j: int| start <= j < i ==> is_digit(s@[j]),
            acc == dec_val(s@.subrange(start as int, i as int)),
            acc <= 0x8000_0000u64,
        decreases n - i,
    {
        let c = s.get_char(i);
        let d: u32 = c as u32;
        if d < 48 || d > 57 {
            // A non-digit character: the text is not a numeral.
            proof {
                let k: int = i as int - start as int;
                assert(digits[k] == s@[i as int]);
                assert(!is_digit(digits[k]));
                assert(!is_int_text(s@));
            }
            return None;
        }
        let ghost prefix = s@.subrange(start as int, i as int);
        acc = acc * 10 + (d - 48) as u64;
        i += 1;
        proof {
            let extended = s@.subrange(start as int, i as int);
            assert(extended.drop_last() =~= prefix);
            assert(extended.last() == s@[i - 1]);
        }
        if acc > 0x8000_0000u64 {
            // Too large already, and appending digits cannot shrink it.
            proof {
                if is_int_text(s@) {
                    let k: int = i as int - start as int;
                    let prefix_now = s@.subrange(start as int, i as int);
                    assert(forall|j: int| 0 <= j < digits.len() ==> is_digit(digits[j]));
                    assert(prefix_now =~= digits.subrange(0, k));
                    lemma_dec_val_prefix(digits, k);
                    assert(dec_val(digits) >= acc > 0x8000_0000);
                    assert(s@[0] == '-' ==> int_text_value(s@) < i32::MIN);
                    assert(s@[0] != '-' ==> int_text_value(s@) > i32::MAX);
                }
                assert(!(is_int_text(s@) && i32::MIN <= int_text_value(s@) <= i32::MAX));
            }
            return None;
        }
    }
    proof {
        assert(s@.subrange(start as int, i as int) =~= digits);
        assert(is_int_text(s@));
    }
    if neg {
        if acc == 0x8000_0000u64 {
            Some(i32::MIN)
        } else {
            Some(-(acc as i32))
        }
    } else {
        if acc == 0x8000_0000u64 {
            None
        } else {
            Some(acc as i32)
        }
    }
}

/// The draft year a field yields under the load policy: its integer value
/// where the field is a numeral in `i32` range, and zero otherwise.
pub open spec fn spec_draft_year(s: Seq<char>) -> int {
    if is_int_text(s) && i32::MIN <= int_text_value(s) <= i32::MAX {
        int_text_value(s)
    } else {
        0
    }
}

/// Parse one draft-year field, substituting zero for malformed text.
pub fn draft_year_of_field(s: &str) -> (r: i32)
    ensures
        r as int == spec_draft_year(s@),
{
    match parse_i32(s) {
        Some(v) => v,
        None => 0,
    }
}

} // verus!
