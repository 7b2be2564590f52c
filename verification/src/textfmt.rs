//! Plain-text helpers: unsigned decimal parsing and formatting, character
//! search, and the colon-to-underscore rewriting used for store file names.

use vstd::prelude::*;

verus! {

/// A decimal digit character.
pub open spec fn is_digit_char(c: char) -> bool {
    48 <= c as u32 <= 57
}

/// Numeric value of a decimal digit character.
pub open spec fn digit_val(c: char) -> int {
    c as u32 - 48
}

/// The digit character for a value below ten.
pub open spec fn digit_char(d: int) -> char {
    if d == 0 {
        '0'
    } else if d == 1 {
        '1'
    } else if d == 2 {
        '2'
    } else if d == 3 {
        '3'
    } else if d == 4 {
        '4'
    } else if d == 5 {
        '5'
    } else if d == 6 {
        '6'
    } else if d == 7 {
        '7'
    } else if d == 8 {
        '8'
    } else {
        '9'
    }
}

pub open spec fn all_digits(s: Seq<char>) -> bool {
    forall|i: int| 0 <= i < s.len() ==> is_digit_char(#[trigger] s[i])
}

/// Value of a string of decimal digits, most significant first.
pub open spec fn digits_val(s: Seq<char>) -> int
    decreases s.len(),
{
    if s.len() == 0 {
        0
    } else {
        digits_val(s.drop_last()) * 10 + digit_val(s.last())
    }
}

/// The digits of a spelled unsigned number: an optional leading plus sign is
/// accepted, as the standard numeric parser does.
pub open spec fn strip_sign(s: Seq<char>) -> Seq<char> {
    if s.len() > 0 && s[0] == '+' {
        s.subrange(1, s.len() as int)
    } else {
        s
    }
}

/// What unsigned decimal parsing yields: the spelled value when the input is
/// an optional plus sign followed by one or more digits and the value is at
/// most `max`; nothing otherwise.
pub open spec fn spec_parse_uint(s: Seq<char>, max: int) -> Option<int> {
    let d = strip_sign(s);
    if d.len() > 0 && all_digits(d) && digits_val(d) <= max {
        Some(digits_val(d))
    } else {
        None
    }
}

pub proof fn lemma_digits_val_nonneg(s: Seq<char>)
    requires
        all_digits(s),
    ensures
        0 <= digits_val(s),
    decreases s.len(),
{
    if s.len() > 0 {
        assert(all_digits(s.drop_last()));
        lemma_digits_val_nonneg(s.drop_last());
    }
}

/// A parsed unsigned number lies between zero and the given bound.
pub proof fn lemma_parse_uint_bounds(s: Seq<char>, max: int)
    requires
        spec_parse_uint(s, max) is Some,
    ensures
        0 <= spec_parse_uint(s, max)->Some_0 <= max,
{
    lemma_digits_val_nonneg(strip_sign(s));
}

/// Every digit prefix spells at most the value of the whole digit string.
proof fn lemma_digits_prefix_le(s: Seq<char>, i: int)
    requires
        all_digits(s),
        0 <= i <= s.len(),
    ensures
        digits_val(s.subrange(0, i)) <= digits_val(s),
    decreases s.len(),
{
    if i == s.len() {
        assert(s.subrange(0, i) =~= s);
    } else {
        let t = s.drop_last();
        assert(all_digits(t));
        assert(s.subrange(0, i) =~= t.subrange(0, i));
        lemma_digits_prefix_le(t, i);
        lemma_digits_val_nonneg(t);
    }
}

/// Parse an unsigned decimal number of at most `max` from the whole string:
/// an optional leading plus sign, then one or more digits. Returns the value
/// exactly when `spec_parse_uint` yields one.
pub fn parse_uint(s: &str, max: u64) -> (r: Option<u64>)
    ensures
        r == (match spec_parse_uint(s@, max as int) {
            Some(v) => Some(v as u64),
            None => None,
        }),
{
    let len = s.unicode_len();
    let mut start: usize = 0;
    if len > 0 && s.get_char(0) == '+' {
        start = 1;
    }
    let ghost d = strip_sign(s@);
    assert(d =~= s@.subrange(start as int, len as int));
    if start >= len {
        return None;
    }
    let mut val: u64 = 0;
    let mut i: usize = start;
    while i < len
        invariant
            start <= i <= len,
            len == s@.len(),
            start < len,
            d == strip_sign(s@),
            d =~= s@.subrange(start as int, len as int),
            all_digits(d.subrange(0, i - start)),
            val == digits_val(d.subrange(0, i - start)),
            val <= max,
        decreases len - i,
    {
        let c = s.get_char(i);
        let v = c as u32;
        let ghost pre = d.subrange(0, i - start);
        assert(d.subrange(0, i + 1 - start) =~= pre.push(c));
        assert(pre.push(c).drop_last() =~= pre);
        if v < 48 || v > 57 {
            proof {
                assert(!is_digit_char(d[i - start]));
                assert(!all_digits(d));
            }
            return None;
        }
        let dig: u64 = ((v - 48) as u8) as u64;
        proof {
            vstd::arithmetic::div_mod::lemma_fundamental_div_mod(max as int, 10);
            vstd::arithmetic::div_mod::lemma_mod_bound(max as int, 10);
        }
        if val > max / 10 || (val == max / 10 && dig > max % 10) {
            proof {
                assert(all_digits(d.subrange(0, i + 1 - start)));
                assert(digits_val(d.subrange(0, i + 1 - start)) > max);
                if all_digits(d) {
                    lemma_digits_prefix_le(d, i + 1 - start);
                }
            }
            return None;
        }
        val = val * 10 + dig;
        i = i + 1;
    }
    assert(d.subrange(0, (len - start) as int) =~= d);
    Some(val)
}

/// Index of the first occurrence of `c` in `s` at or after `from`; the
/// length of `s` when there is none.
pub open spec fn index_of_from(s: Seq<char>, c: char, from: int) -> int
    decreases s.len() - from,
{
    if from < 0 {
        -1
    } else if from >= s.len() {
        s.len() as int
    } else if s[from] == c {
        from
    } else {
        index_of_from(s, c, from + 1)
    }
}

/// Basic bounds of `index_of_from`, and that a found position holds `c`.
pub proof fn lemma_index_of_from(s: Seq<char>, c: char, from: int)
    requires
        0 <= from <= s.len(),
    ensures
        from <= index_of_from(s, c, from) <= s.len(),
        index_of_from(s, c, from) < s.len() ==> s[index_of_from(s, c, from)] == c,
    decreases s.len() - from,
{
    if from < s.len() && s[from] != c {
        lemma_index_of_from(s, c, from + 1);
    }
}

/// Find the first `sep` at or after `from`. `len` must be the character
/// length of `s`.
pub fn find_char_from(s: &str, sep: char, len: usize, from: usize) -> (r: usize)
    requires
        len == s@.len(),
        from <= len,
    ensures
        r == index_of_from(s@, sep, from as int),
        from <= r <= len,
        r < len ==> s@[r as int] == sep,
{
    proof {
        lemma_index_of_from(s@, sep, from as int);
    }
    let mut i: usize = from;
    while i < len
        invariant
            from <= i <= len,
            len == s@.len(),
            index_of_from(s@, sep, from as int) == index_of_from(s@, sep, i as int),
        decreases len - i,
    {
        if s.get_char(i) == sep {
            return i;
        }
        i = i + 1;
    }
    i
}

/// Decimal spelling of a nonnegative number, most significant digit first.
pub open spec fn dec_digits(n: int) -> Seq<char>
    decreases n,
{
    if n < 0 {
        Seq::empty()
    } else if n < 10 {
        seq![digit_char(n)]
    } else {
        dec_digits(n / 10).push(digit_char(n % 10))
    }
}

/// The one-character string for a digit value.
fn digit_str(d: u64) -> (r: &'static str)
    requires
        d < 10,
    ensures
        r@ == seq![digit_char(d as int)],
{
    proof {
        reveal_strlit("0");
        reveal_strlit("1");
        reveal_strlit("2");
        reveal_strlit("3");
        reveal_strlit("4");
        reveal_strlit("5");
        reveal_strlit("6");
        reveal_strlit("7");
        reveal_strlit("8");
        reveal_strlit("9");
    }
    let r = if d == 0 {
        "0"
    } else if d == 1 {
        "1"
    } else if d == 2 {
        "2"
    } else if d == 3 {
        "3"
    } else if d == 4 {
        "4"
    } else if d == 5 {
        "5"
    } else if d == 6 {
        "6"
    } else if d == 7 {
        "7"
    } else if d == 8 {
        "8"
    } else {
        "9"
    };
    proof {
        assert(r@ =~= seq![digit_char(d as int)]);
    }
    r
}

/// Spell a number in decimal.
pub fn u64_to_string(n: u64) -> (r: String)
    ensures
        r@ == dec_digits(n as int),
    decreases n,
{
    if n < 10 {
        digit_str(n).to_owned()
    } else {
        let mut s = u64_to_string(n / 10);
        s.append(digit_str(n % 10));
        proof {
            assert(s@ =~= dec_digits(n as int / 10).push(digit_char(n as int % 10)));
        }
        s
    }
}

/// What rewriting a colon to an underscore yields, character by character.
pub open spec fn underscore_colons(s: Seq<char>) -> Seq<char> {
    s.map_values(|c: char| if c == ':' { '_' } else { c })
}

/// Copy `s`, replacing every colon with an underscore.
pub fn underscored(s: &str) -> (r: String)
    ensures
        r@ == underscore_colons(s@),
{
    let len = s.unicode_len();
    let mut out = String::new();
    let mut i: usize = 0;
    proof {
        assert(out@ =~= underscore_colons(s@.subrange(0, 0)));
    }
    while i < len
        invariant
            0 <= i <= len,
            len == s@.len(),
            out@ =~= underscore_colons(s@.subrange(0, i as int)),
        decreases len - i,
    {
        let c = s.get_char(i);
        if c == ':' {
            out.append("_");
            proof {
                reveal_strlit("_");
            }
        } else {
            let piece = s.substring_char(i, i + 1);
            out.append(piece);
        }
        proof {
            assert(underscore_colons(s@.subrange(0, i + 1))
                =~= underscore_colons(s@.subrange(0, i as int)).push(
                    if s@[i as int] == ':' { '_' } else { s@[i as int] },
                ));
            assert(out@ =~= underscore_colons(s@.subrange(0, i + 1)));
        }
        i = i + 1;
    }
    proof {
        assert(s@.subrange(0, len as int) =~= s@);
    }
    out
}

} // verus!
