//! Field codec: timestamps are stored in the index as decimal strings of
//! epoch seconds, and document identifiers as hyphenated hexadecimal text.
//! Encoding and parsing round-trip losslessly; the proof is
//! `lemma_timestamp_round_trip`.

use vstd::prelude::*;

verus! {

/// The characters '0' through '9'.
pub open spec fn is_digit_char(c: char) -> bool {
    48 <= c as int <= 57
}

/// Numeric value of a single decimal digit character.
pub open spec fn digit_char_val(c: char) -> int {
    c as int - 48
}

pub open spec fn all_digit_chars(s: Seq<char>) -> bool {
    forall|i: int| 0 <= i < s.len() ==> is_digit_char(#[trigger] s[i])
}

/// Value of a digit string, most significant digit first.
pub open spec fn digits_val(s: Seq<char>) -> int
    decreases s.len(),
{
    if s.len() == 0 {
        0
    } else {
        digits_val(s.drop_last()) * 10 + digit_char_val(s.last())
    }
}

/// The decimal digit character for a value 0 <= d < 10.
pub open spec fn digit_char(d: int) -> char {
    if d == 0 {
        '0'
    } else if d == 1 {
        '1'
    } else if d == 2 {
        '2'
    } else if d == 3 {
        '3'
    } else if d == 4 {
        '4'
    } else if d == 5 {
        '5'
    } else if d == 6 {
        '6'
    } else if d == 7 {
        '7'
    } else if d == 8 {
        '8'
    } else {
        '9'
    }
}

/// Decimal digit string of a natural number, without leading zeros
/// (a single '0' for zero).
pub open spec fn spec_digits(n: nat) -> Seq<char>
    decreases n,
{
    if n < 10 {
        seq![digit_char(n as int)]
    } else {
        spec_digits(n / 10).push(digit_char((n % 10) as int))
    }
}

/// The stored form of a timestamp: its decimal digits, with a leading '-'
/// for negative values.
pub open spec fn spec_encode_timestamp(t: int) -> Seq<char> {
    if t >= 0 {
        spec_digits(t as nat)
    } else {
        seq!['-'] + spec_digits((-t) as nat)
    }
}

/// What parsing a stored timestamp string yields: the represented value if
/// the string is an optional '-' followed by one or more decimal digits and
/// the value fits in an `i64`, and nothing otherwise.
pub open spec fn spec_parse_timestamp(s: Seq<char>) -> Option<i64> {
    if s.len() > 0 && s[0] == '-' {
        let d = s.subrange(1, s.len() as int);
        if d.len() > 0 && all_digit_chars(d) && digits_val(d) <= 0x8000_0000_0000_0000 {
            Some((-digits_val(d)) as i64)
        } else {
            None
        }
    } else if s.len() > 0 && all_digit_chars(s) && digits_val(s) <= i64::MAX {
        Some(digits_val(s) as i64)
    } else {
        None
    }
}

fn digit_to_char(d: u64) -> (c: char)
    requires
        d < 10,
    ensures
        c == digit_char(d as int),
{
    if d == 0 {
        '0'
    } else if d == 1 {
        '1'
    } else if d == 2 {
        '2'
    } else if d == 3 {
        '3'
    } else if d == 4 {
        '4'
    } else if d == 5 {
        '5'
    } else if d == 6 {
        '6'
    } else if d == 7 {
        '7'
    } else if d == 8 {
        '8'
    } else {
        '9'
    }
}

fn push_digits(n: u64, out: &mut Vec<char>)
    ensures
        final(out)@ == old(out)@ + spec_digits(n as nat),
    decreases n,
{
    if n < 10 {
        let c = digit_to_char(n);
        out.push(c);
        assert(out@ =~= old(out)@ + spec_digits(n as nat));
    } else {
        push_digits(n / 10, out);
        let c = digit_to_char(n % 10);
        out.push(c);
        assert(out@ =~= old(out)@ + spec_digits(n as nat));
    }
}

/// Relies on `String::from_iter` over characters: the collected string holds
/// exactly the characters of the vector, in order.
#[verifier::external_body]
fn chars_to_string(v: &Vec<char>) -> (r: String)
    ensures
        r@ == v@,
{
    v.iter().copied().collect()
}

/// Encode a timestamp as the decimal string stored in the index.
pub fn encode_timestamp(t: i64) -> (r: String)
    ensures
        r@ == spec_encode_timestamp(t as int),
{
    let mut chars: Vec<char> = Vec::new();
    if t >= 0 {
        push_digits(t as u64, &mut chars);
    } else {
        chars.push('-');
        let m: u64 = (-(t as i128)) as u64;
        push_digits(m, &mut chars);
        assert(chars@ =~= seq!['-'] + spec_digits(m as nat));
    }
    chars_to_string(&chars)
}

/// A hexadecimal digit, either case.
pub open spec fn is_hex_char(c: char) -> bool {
    48 <= c as int <= 57 || 97 <= c as int <= 102 || 65 <= c as int <= 70
}

/// What the character at position `i` of hyphenated identifier text must be:
/// a separator at the four fixed positions, a hexadecimal digit elsewhere.
pub open spec fn uuid_char_ok(s: Seq<char>, i: int) -> bool {
    if i == 8 || i == 13 || i == 18 || i == 23 {
        s[i] == '-'
    } else {
        is_hex_char(s[i])
    }
}

/// Identifier text in the stored hyphenated form: 36 characters, hexadecimal
/// digits in five groups separated by '-' at positions 8, 13, 18 and 23.
pub open spec fn is_uuid_text(s: Seq<char>) -> bool {
    s.len() == 36 && forall|i: int| 0 <= i < 36 ==> #[trigger] uuid_char_ok(s, i)
}

/// Check that a stored identifier has the hyphenated form.
pub fn is_uuid_str(s: &str) -> (r: bool)
    ensures
        r == is_uuid_text(s@),
{
    let n = s.unicode_len();
    if n != 36 {
        return false;
    }
    let mut i: usize = 0;
    while i < 36
        invariant
            s@.len() == 36,
            i <= 36,
            forall|j: int| 0 <= j < i ==> #[trigger] uuid_char_ok(s@, j),
        decreases 36 - i,
    {
        let c = s.get_char(i);
        let u: u32 = c as u32;
        if i == 8 || i == 13 || i == 18 || i == 23 {
            if u != 45 {
                proof {
                    assert(!uuid_char_ok(s@, i as int));
                }
                return false;
            }
        } else {
            if !((u >= 48 && u <= 57) || (u >= 97 && u <= 102) || (u >= 65 && u <= 70)) {
                proof {
                    assert(!uuid_char_ok(s@, i as int));
                }
                return false;
            }
        }
        i = i + 1;
    }
    true
}

proof fn lemma_digits_val_nonneg(s: Seq<char>)
    requires
        all_digit_chars(s),
    ensures
        digits_val(s) >= 0,
    decreases s.len(),
{
    if s.len() > 0 {
        assert forall|i: int| 0 <= i < s.drop_last().len() implies is_digit_char(
            #[trigger] s.drop_last()[i],
        ) by {
            assert(s.drop_last()[i] == s[i]);
        }
        lemma_digits_val_nonneg(s.drop_last());
        assert(is_digit_char(s.last()));
    }
}

/// A digit string's value never drops when more digits are appended: the
/// value of any prefix bounds the value of the whole from below.
proof fn lemma_digits_val_prefix_le(s: Seq<char>, k: int)
    requires
        all_digit_chars(s),
        0 <= k <= s.len(),
    ensures
        digits_val(s.subrange(0, k)) <= digits_val(s),
    decreases s.len() - k,
{
    if k == s.len() {
        assert(s.subrange(0, k) =~= s);
    } else {
        let p = s.subrange(0, k);
        let q = s.subrange(0, k + 1);
        assert(q.drop_last() =~= p);
        assert(q.last() == s[k]);
        assert forall|i: int| 0 <= i < p.len() implies is_digit_char(#[trigger] p[i]) by {
            assert(p[i] == s[i]);
        }
        lemma_digits_val_nonneg(p);
        assert(is_digit_char(s[k]));
        assert(digits_val(q) == digits_val(p) * 10 + digit_char_val(s[k]));
        lemma_digits_val_prefix_le(s, k + 1);
    }
}

/// Parse a stored timestamp string back to its numeric value; yields
/// nothing on any string that is not a well-formed in-range decimal.
pub fn parse_timestamp(s: &str) -> (r: Option<i64>)
    ensures
        r == spec_parse_timestamp(s@),
{
    let n = s.unicode_len();
    if n == 0 {
        return None;
    }
    let first = s.get_char(0);
    let neg = first == '-';
    let start: usize = if neg {
        1
    } else {
        0
    };
    if start == n {
        return None;
    }
    let ghost d: Seq<char> = s@.subrange(start as int, n as int);
    let mut i: usize = start;
    while i < n
        invariant
            start <= i <= n,
            start < n,
            n == s@.len(),
            neg == (s@[0] == '-'),
            start == (if neg { 1int } else { 0int }),
            d == s@.subrange(start as int, n as int),
            forall|j: int| 0 <= j < i - start ==> is_digit_char(#[trigger] d[j]),
        decreases n - i,
    {
        let c = s.get_char(i);
        let u: u32 = c as u32;
        if u < 48 || u > 57 {
            proof {
                assert(d[i - start] == s@[i as int]);
                assert(!is_digit_char(d[i - start]));
                if !neg {
                    assert(s@.subrange(0, n as int) =~= s@);
                }
            }
            return None;
        }
        i = i + 1;
    }
    assert(all_digit_chars(d));
    let limit: u64 = if neg {
        0x8000_0000_0000_0000
    } else {
        0x7FFF_FFFF_FFFF_FFFF
    };
    let mut acc: u64 = 0;
    i = start;
    while i < n
        invariant
            start <= i <= n,
            start < n,
            n == s@.len(),
            neg == (s@[0] == '-'),
            start == (if neg { 1int } else { 0int }),
            d == s@.subrange(start as int, n as int),
            all_digit_chars(d),
            limit == (if neg { 0x8000_0000_0000_0000u64 } else { 0x7FFF_FFFF_FFFF_FFFFu64 }),
            acc <= limit,
            acc == digits_val(d.subrange(0, i - start)),
        decreases n - i,
    {
        let c = s.get_char(i);
        proof {
            assert(d[i - start] == s@[i as int]);
            assert(is_digit_char(d[i - start]));
        }
        let u: u32 = c as u32;
        let dv: u64 = (u - 48) as u64;
        let wide: u128 = acc as u128 * 10 + dv as u128;
        proof {
            assert(d.subrange(0, i - start + 1).drop_last() =~= d.subrange(0, i - start));
            assert(d.subrange(0, i - start + 1).last() == d[i - start]);
            assert(digits_val(d.subrange(0, i - start + 1)) == acc * 10 + dv);
        }
        if wide > limit as u128 {
            proof {
                lemma_digits_val_prefix_le(d, i - start + 1);
                if !neg {
                    assert(s@.subrange(0, n as int) =~= s@);
                }
            }
            return None;
        }
        acc = wide as u64;
        i = i + 1;
    }
    proof {
        assert(d.subrange(0, n - start) =~= d);
        if !neg {
            assert(s@.subrange(0, n as int) =~= s@);
        }
    }
    if neg {
        if acc >= 0x8000_0000_0000_0000 {
            Some(i64::MIN)
        } else {
            Some(-(acc as i64))
        }
    } else {
        Some(acc as i64)
    }
}

proof fn lemma_spec_digits_wf(n: nat)
    ensures
        spec_digits(n).len() >= 1,
        all_digit_chars(spec_digits(n)),
        digits_val(spec_digits(n)) == n,
    decreases n,
{
    if n < 10 {
        let s = spec_digits(n);
        assert(s.drop_last() =~= Seq::<char>::empty());
        assert(s.last() == digit_char(n as int));
        assert(digit_char_val(digit_char(n as int)) == n);
        assert(is_digit_char(digit_char(n as int)));
        assert(digits_val(s) == digits_val(s.drop_last()) * 10 + digit_char_val(s.last()));
        assert(digits_val(Seq::<char>::empty()) == 0);
        assert(digits_val(s) == n);
    } else {
        lemma_spec_digits_wf(n / 10);
        let p = spec_digits(n / 10);
        let s = p.push(digit_char((n % 10) as int));
        assert(s.drop_last() =~= p);
        assert(s.last() == digit_char((n % 10) as int));
        assert(digit_char_val(digit_char((n % 10) as int)) == n % 10);
        assert(digits_val(s) == digits_val(p) * 10 + n % 10);
        assert(digits_val(s) == n);
        assert forall|i: int| 0 <= i < s.len() implies is_digit_char(#[trigger] s[i]) by {
            if i < p.len() {
                assert(s[i] == p[i]);
            } else {
                assert(s[i] == s.last());
                assert(is_digit_char(digit_char((n % 10) as int)));
            }
        }
    }
}

/// The codec round-trip law: parsing the stored form of any timestamp
/// yields that timestamp again.
pub proof fn lemma_timestamp_round_trip(t: i64)
    ensures
        spec_parse_timestamp(spec_encode_timestamp(t as int)) == Some(t),
{
    if t >= 0 {
        let s = spec_digits(t as nat);
        lemma_spec_digits_wf(t as nat);
        assert(is_digit_char(s[0]));
        assert(s[0] != '-');
    } else {
        let m = (-(t as int)) as nat;
        let s = spec_encode_timestamp(t as int);
        lemma_spec_digits_wf(m);
        assert(s[0] == '-');
        assert(s.subrange(1, s.len() as int) =~= spec_digits(m));
        assert(digits_val(spec_digits(m)) == m <= 0x8000_0000_0000_0000);
    }
}

} // verus!
