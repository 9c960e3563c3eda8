//! Decimal rendering of unsigned integers, and percent-encoding of text
//! that stands in a URI.
use vstd::prelude::*;

verus! {

/// The decimal digits, in order of value.
pub open spec fn digit_chars() -> Seq<char> {
    seq!['0', '1', '2', '3', '4', '5', '6', '7', '8', '9']
}

/// The decimal text of `n`, without leading zeros (`"0"` for zero).
pub open spec fn decimal(n: nat) -> Seq<char>
    decreases n,
{
    if n < 10 {
        seq![digit_chars()[n as int]]
    } else {
        decimal(n / 10) + seq![digit_chars()[(n % 10) as int]]
    }
}

/// Writes `n` in decimal, as `u64::to_string` does.
pub fn decimal_text(n: u64) -> (r: String)
    ensures
        r@ == decimal(n as nat),
    decreases n,
{
    let digits = "0123456789";
    proof {
        reveal_strlit("0123456789");
        assert(digits@ =~= digit_chars());
    }
    let d = (n % 10) as usize;
    let last = digits.substring_ascii(d, d + 1);
    assert(last@ =~= seq![digit_chars()[d as int]]);
    if n < 10 {
        String::from_str(last)
    } else {
        let mut r = decimal_text(n / 10);
        r.append(last);
        r
    }
}

/// The characters that stand in a URI as they are (RFC 3986, section 2.3):
/// ASCII letters and digits, `-`, `.`, `_` and `~`.
pub open spec fn is_unreserved(c: char) -> bool {
    ||| ('a' <= c && c <= 'z')
    ||| ('A' <= c && c <= 'Z')
    ||| ('0' <= c && c <= '9')
    ||| c == '-'
    ||| c == '.'
    ||| c == '_'
    ||| c == '~'
}

/// The upper-case hexadecimal digits, in order of value.
pub open spec fn upper_hex_digits() -> Seq<char> {
    seq!['0', '1', '2', '3', '4', '5', '6', '7', '8', '9', 'A', 'B', 'C', 'D', 'E', 'F']
}

/// How one character stands in a URI component: an unreserved or non-ASCII
/// character as it is; any other ASCII character (the reserved delimiters
/// such as `:`, `/`, `?`, `@`, `&` and `=`, `%` itself, space and the
/// control characters) as `%` followed by two upper-case hexadecimal digits
/// of its code.
pub open spec fn escaped_char(c: char) -> Seq<char> {
    if is_unreserved(c) || (c as u32) >= 128 {
        seq![c]
    } else {
        seq!['%', upper_hex_digits()[((c as u32) / 16) as int], upper_hex_digits()[((c as u32) % 16) as int]]
    }
}

/// The text `s` percent-encoded as a URI component, character by character.
pub open spec fn percent_encoded(s: Seq<char>) -> Seq<char>
    decreases s.len(),
{
    if s.len() == 0 {
        seq![]
    } else {
        escaped_char(s[0]) + percent_encoded(s.drop_first())
    }
}

/// Encoding a text with one more character appends that character's escape.
proof fn lemma_percent_encoded_push(s: Seq<char>, c: char)
    ensures
        percent_encoded(s.push(c)) == percent_encoded(s) + escaped_char(c),
    decreases s.len(),
{
    if s.len() == 0 {
        assert(s.push(c).drop_first() =~= s);
        assert(percent_encoded(s.push(c).drop_first()) == Seq::<char>::empty());
        assert(escaped_char(c) + Seq::<char>::empty() =~= escaped_char(c));
    } else {
        lemma_percent_encoded_push(s.drop_first(), c);
        assert(s.push(c).drop_first() =~= s.drop_first().push(c));
        assert(s.push(c)[0] == s[0]);
    }
}

/// The value of a hexadecimal digit of either case.
pub open spec fn hex_value(c: char) -> Option<int> {
    if '0' <= c && c <= '9' {
        Some(c as int - 48)
    } else if 'A' <= c && c <= 'F' {
        Some(c as int - 55)
    } else if 'a' <= c && c <= 'f' {
        Some(c as int - 87)
    } else {
        None
    }
}

/// The text that a percent-encoded URI component stands for: `%` followed by
/// two hexadecimal digits stands for the character with that code; every
/// other character stands for itself.
pub open spec fn percent_decoded(s: Seq<char>) -> Seq<char>
    decreases s.len(),
{
    if s.len() == 0 {
        seq![]
    } else if s.len() >= 3 && s[0] == '%' && hex_value(s[1]) is Some && hex_value(s[2]) is Some {
        seq![(hex_value(s[1]).unwrap() * 16 + hex_value(s[2]).unwrap()) as char] + percent_decoded(
            s.skip(3),
        )
    } else {
        seq![s[0]] + percent_decoded(s.drop_first())
    }
}

/// Each upper-case hexadecimal digit is unreserved and has its place as value.
proof fn lemma_upper_hex_digit(k: int)
    requires
        0 <= k < 16,
    ensures
        hex_value(upper_hex_digits()[k]) == Some(k),
        is_unreserved(upper_hex_digits()[k]),
{
    if k == 0 {
    } else if k == 1 {
    } else if k == 2 {
    } else if k == 3 {
    } else if k == 4 {
    } else if k == 5 {
    } else if k == 6 {
    } else if k == 7 {
    } else if k == 8 {
    } else if k == 9 {
    } else if k == 10 {
    } else if k == 11 {
    } else if k == 12 {
    } else if k == 13 {
    } else if k == 14 {
    } else {
    }
}

/// A character's code fits in a `u32`, and the character of that code is the character.
proof fn lemma_char_code(c: char)
    ensures
        (c as u32) as int == c as int,
        (c as int) as char == c,
{
}

/// Decoding a percent-encoded text gives back the text: no information is
/// lost, whatever delimiters the text holds.
pub proof fn law_percent_encoding_round_trips(s: Seq<char>)
    ensures
        percent_decoded(percent_encoded(s)) == s,
    decreases s.len(),
{
    if s.len() > 0 {
        let c = s[0];
        let rest = percent_encoded(s.drop_first());
        law_percent_encoding_round_trips(s.drop_first());
        let e = escaped_char(c) + rest;
        if is_unreserved(c) || (c as u32) >= 128 {
            assert(e[0] == c);
            assert(e.drop_first() =~= rest);
        } else {
            let code = c as u32;
            lemma_upper_hex_digit((code / 16) as int);
            lemma_upper_hex_digit((code % 16) as int);
            assert(e[0] == '%');
            assert(e.skip(3) =~= rest);
            lemma_char_code(c);
            assert((code / 16) as int * 16 + (code % 16) as int == c as int);
            assert((c as int) as char == c);
        }
        assert(s =~= seq![c] + s.drop_first());
    }
}

/// A percent-encoded text holds no ASCII character other than the unreserved
/// ones and `%`: none of the delimiters that separate the parts of a URI.
pub proof fn law_percent_encoded_has_no_delimiters(s: Seq<char>)
    ensures
        forall|i: int|
            0 <= i < percent_encoded(s).len() ==> is_unreserved(#[trigger] percent_encoded(s)[i])
                || percent_encoded(s)[i] == '%' || (percent_encoded(s)[i] as u32) >= 128,
    decreases s.len(),
{
    if s.len() > 0 {
        let c = s[0];
        law_percent_encoded_has_no_delimiters(s.drop_first());
        let rest = percent_encoded(s.drop_first());
        let e = escaped_char(c);
        if !(is_unreserved(c) || (c as u32) >= 128) {
            lemma_upper_hex_digit(((c as u32) / 16) as int);
            lemma_upper_hex_digit(((c as u32) % 16) as int);
        }
        assert forall|i: int| 0 <= i < percent_encoded(s).len() implies is_unreserved(
            #[trigger] percent_encoded(s)[i],
        ) || percent_encoded(s)[i] == '%' || (percent_encoded(s)[i] as u32) >= 128 by {
            if i >= e.len() {
                assert(percent_encoded(s)[i] == rest[i - e.len()]);
            }
        }
    }
}

/// Whether `c` stands in a URI as it is.
fn unreserved_char(c: char) -> (r: bool)
    ensures
        r == is_unreserved(c),
{
    (c >= 'a' && c <= 'z') || (c >= 'A' && c <= 'Z') || (c >= '0' && c <= '9') || c == '-' || c
        == '.' || c == '_' || c == '~'
}

/// Percent-encodes `s` as a URI component, so that none of the URI's
/// delimiters stands in it.
pub fn percent_encode(s: &str) -> (r: String)
    ensures
        r@ == percent_encoded(s@),
{
    let digits = "0123456789ABCDEF";
    let percent = "%";
    proof {
        reveal_strlit("0123456789ABCDEF");
        reveal_strlit("%");
        assert(digits@ =~= upper_hex_digits());
    }
    let n = s.unicode_len();
    let mut r = String::new();
    let mut i: usize = 0;
    assert(s@.take(0) =~= Seq::<char>::empty());
    while i < n
        invariant
            n == s@.len(),
            i <= n,
            digits@ == upper_hex_digits(),
            digits.is_ascii(),
            percent@ == seq!['%'],
            r@ == percent_encoded(s@.take(i as int)),
        decreases n - i,
    {
        let c = s.get_char(i);
        let code = c as u32;
        if unreserved_char(c) || code >= 128 {
            let one = s.substring_char(i, i + 1);
            assert(one@ =~= seq![c]);
            r.append(one);
        } else {
            let hi = (code / 16) as usize;
            let lo = (code % 16) as usize;
            r.append(percent);
            r.append(digits.substring_ascii(hi, hi + 1));
            r.append(digits.substring_ascii(lo, lo + 1));
        }
        proof {
            lemma_percent_encoded_push(s@.take(i as int), c);
            assert(s@.take(i + 1) =~= s@.take(i as int).push(c));
        }
        i = i + 1;
    }
    assert(s@.take(n as int) =~= s@);
    r
}

} // verus!
