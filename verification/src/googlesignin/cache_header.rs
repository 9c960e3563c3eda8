//! The `Cache-Control` header of the certificates' response: which values
//! the `cache_control` crate cannot read without panicking, and the expiry
//! that the header gives the certificates.
use crate::googlesignin::cache::{expiry_for, Certificates};
use vstd::prelude::*;

verus! {

/// Whether `c` is white space as `str::trim` removes it: the characters with
/// the Unicode `White_Space` property.
pub open spec fn is_white_space(c: char) -> bool {
    ||| ('\u{9}' <= c && c <= '\u{d}')
    ||| c == ' '
    ||| c == '\u{85}'
    ||| c == '\u{a0}'
    ||| c == '\u{1680}'
    ||| ('\u{2000}' <= c && c <= '\u{200a}')
    ||| c == '\u{2028}'
    ||| c == '\u{2029}'
    ||| c == '\u{202f}'
    ||| c == '\u{205f}'
    ||| c == '\u{3000}'
}

/// `s` without its leading white space.
pub open spec fn trim_start(s: Seq<char>) -> Seq<char>
    decreases s.len(),
{
    if s.len() > 0 && is_white_space(s[0]) {
        trim_start(s.drop_first())
    } else {
        s
    }
}

/// `s` without its trailing white space.
pub open spec fn trim_end(s: Seq<char>) -> Seq<char>
    decreases s.len(),
{
    if s.len() > 0 && is_white_space(s.last()) {
        trim_end(s.drop_last())
    } else {
        s
    }
}

/// `s` without its leading and trailing white space (`str::trim`).
pub open spec fn trimmed(s: Seq<char>) -> Seq<char> {
    trim_end(trim_start(s))
}

/// The length of the first piece of `s` when split at `d` (`str::split`):
/// the index of the first `d`, or the whole length when there is none.
pub open spec fn piece_len(s: Seq<char>, d: char) -> nat
    decreases s.len(),
{
    if s.len() == 0 || s[0] == d {
        0
    } else {
        1 + piece_len(s.drop_first(), d)
    }
}

/// The first piece is a part of the text.
pub proof fn lemma_piece_len(s: Seq<char>, d: char)
    ensures
        piece_len(s, d) <= s.len(),
        piece_len(s, d) < s.len() ==> s[piece_len(s, d) as int] == d,
    decreases s.len(),
{
    if s.len() > 0 && s[0] != d {
        lemma_piece_len(s.drop_first(), d);
    }
}

/// Whether every character of `s` is an ASCII digit, and there is one at least.
pub open spec fn all_digits(s: Seq<char>) -> bool {
    s.len() > 0 && forall|i: int| 0 <= i < s.len() ==> '0' <= #[trigger] s[i] && s[i] <= '9'
}

/// The number that the decimal digits `s` spell.
pub open spec fn digits_value(s: Seq<char>) -> int
    decreases s.len(),
{
    if s.len() == 0 {
        0
    } else {
        digits_value(s.drop_last()) * 10 + (s.last() as int - 48)
    }
}

/// The number that `s` reads as with `str::parse::<i64>`: an optional `+` or
/// `-`, then decimal digits, of a value that fits in an `i64`.
pub open spec fn parsed_i64(s: Seq<char>) -> Option<int> {
    let negative = s.len() > 0 && s[0] == '-';
    let digits = if s.len() > 0 && (s[0] == '-' || s[0] == '+') {
        s.drop_first()
    } else {
        s
    };
    let v = if negative {
        -digits_value(digits)
    } else {
        digits_value(digits)
    };
    if all_digits(digits) && i64::MIN <= v <= i64::MAX {
        Some(v)
    } else {
        None
    }
}

/// The largest number of seconds that a `time::Duration` holds:
/// `i64::MAX` milliseconds, in whole seconds.
pub open spec fn max_duration_secs() -> int {
    9223372036854775
}

/// What reading one comma-separated directive does.
#[derive(PartialEq, Eq, Structural, Debug, Clone, Copy)]
pub enum DirectiveEffect {
    /// The directive is read, and the next one follows.
    Continue,
    /// The value is refused: a duration directive with no number.
    Refuse,
    /// A duration directive whose number of seconds is out of the range of a
    /// `time::Duration`; `time::Duration::seconds` panics on it.
    Overflow,
}

/// Whether `key` names one of the directives whose value is a duration:
/// `max-age`, `max-stale` or `min-fresh`.
pub open spec fn is_duration_key(key: Seq<char>) -> bool {
    key == "max-age"@ || key == "max-stale"@ || key == "min-fresh"@
}

/// What `cache_control::CacheControl::from_value` does with one directive
/// `token`: the token is split at `=`, each piece trimmed; a duration
/// directive needs a second piece that reads as an `i64` number of seconds.
pub open spec fn directive_effect(token: Seq<char>) -> DirectiveEffect {
    let e = piece_len(token, '=');
    let key = trimmed(token.take(e as int));
    if !is_duration_key(key) {
        DirectiveEffect::Continue
    } else if e >= token.len() {
        DirectiveEffect::Refuse
    } else {
        let rest = token.skip(e + 1int);
        let value = trimmed(rest.take(piece_len(rest, '=') as int));
        match parsed_i64(value) {
            None => DirectiveEffect::Refuse,
            Some(v) => if v > max_duration_secs() || v < -max_duration_secs() {
                DirectiveEffect::Overflow
            } else {
                DirectiveEffect::Continue
            },
        }
    }
}

/// Whether `cache_control::CacheControl::from_value` panics on the header
/// value: reading the directives in order (split at `,`), it meets a
/// duration out of range before it refuses the value.
pub open spec fn cache_control_overflows(value: Seq<char>) -> bool
    decreases value.len(),
{
    let k = piece_len(value, ',');
    match directive_effect(value.take(k as int)) {
        DirectiveEffect::Overflow => true,
        DirectiveEffect::Refuse => false,
        DirectiveEffect::Continue => if k < value.len() {
            proof {
                lemma_piece_len(value, ',');
            }
            cache_control_overflows(value.skip(k + 1int))
        } else {
            false
        },
    }
}

/// Whether `c` is white space as `str::trim` removes it.
fn white_space(c: char) -> (r: bool)
    ensures
        r == is_white_space(c),
{
    (c >= '\u{9}' && c <= '\u{d}') || c == ' ' || c == '\u{85}' || c == '\u{a0}' || c == '\u{1680}'
        || (c >= '\u{2000}' && c <= '\u{200a}') || c == '\u{2028}' || c == '\u{2029}' || c
        == '\u{202f}' || c == '\u{205f}' || c == '\u{3000}'
}

/// The characters of `s`.
fn chars_of(s: &str) -> (r: Vec<char>)
    ensures
        r@ == s@,
{
    let n = s.unicode_len();
    let mut r: Vec<char> = Vec::new();
    let mut i: usize = 0;
    while i < n
        invariant
            n == s@.len(),
            i <= n,
            r@ == s@.take(i as int),
        decreases n - i,
    {
        r.push(s.get_char(i));
        assert(s@.take(i + 1) =~= s@.take(i as int).push(s@[i as int]));
        i = i + 1;
    }
    assert(s@.take(n as int) =~= s@);
    r
}

/// The end of the first piece of `chars[from..to]` when split at `d`.
fn piece_end(chars: &Vec<char>, from: usize, to: usize, d: char) -> (k: usize)
    requires
        from <= to <= chars@.len(),
    ensures
        from <= k <= to,
        k - from == piece_len(chars@.subrange(from as int, to as int), d),
{
    let mut i = from;
    while i < to && chars[i] != d
        invariant
            from <= i <= to,
            to <= chars@.len(),
            piece_len(chars@.subrange(from as int, to as int), d) == (i - from) + piece_len(
                chars@.subrange(i as int, to as int),
                d,
            ),
        decreases to - i,
    {
        assert(chars@.subrange(i as int, to as int)[0] == chars@[i as int]);
        assert(chars@.subrange(i as int, to as int).drop_first() =~= chars@.subrange(i + 1, to as int));
        i = i + 1;
    }
    assert(i < to ==> chars@.subrange(i as int, to as int)[0] == chars@[i as int]);
    i
}

/// The bounds of `chars[from..to]` without its leading and trailing white space.
fn trim_range(chars: &Vec<char>, from: usize, to: usize) -> (r: (usize, usize))
    requires
        from <= to <= chars@.len(),
    ensures
        from <= r.0 <= r.1 <= to,
        trimmed(chars@.subrange(from as int, to as int)) == chars@.subrange(r.0 as int, r.1 as int),
{
    let mut i = from;
    while i < to && white_space(chars[i])
        invariant
            from <= i <= to,
            to <= chars@.len(),
            trim_start(chars@.subrange(from as int, to as int)) == trim_start(
                chars@.subrange(i as int, to as int),
            ),
        decreases to - i,
    {
        assert(chars@.subrange(i as int, to as int)[0] == chars@[i as int]);
        assert(chars@.subrange(i as int, to as int).drop_first() =~= chars@.subrange(i + 1, to as int));
        i = i + 1;
    }
    assert(i < to ==> chars@.subrange(i as int, to as int)[0] == chars@[i as int]);
    let mut j = to;
    while j > i && white_space(chars[j - 1])
        invariant
            i <= j <= to,
            to <= chars@.len(),
            trim_end(chars@.subrange(i as int, to as int)) == trim_end(chars@.subrange(i as int, j as int)),
        decreases j - i,
    {
        assert(chars@.subrange(i as int, j as int).last() == chars@[j - 1]);
        assert(chars@.subrange(i as int, j as int).drop_last() =~= chars@.subrange(i as int, j - 1));
        j = j - 1;
    }
    assert(j > i ==> chars@.subrange(i as int, j as int).last() == chars@[j - 1]);
    (i, j)
}

/// Whether `chars[from..to]` is the text `t`.
fn range_equals(chars: &Vec<char>, from: usize, to: usize, t: &str) -> (r: bool)
    requires
        from <= to <= chars@.len(),
    ensures
        r == (chars@.subrange(from as int, to as int) == t@),
{
    let n = t.unicode_len();
    if to - from != n {
        return false;
    }
    let mut i: usize = 0;
    while i < n
        invariant
            n == t@.len(),
            to - from == n,
            to <= chars@.len(),
            i <= n,
            forall|j: int| 0 <= j < i ==> chars@[from + j] == t@[j],
        decreases n - i,
    {
        if chars[from + i] != t.get_char(i) {
            assert(chars@.subrange(from as int, to as int)[i as int] == chars@[from + i]);
            return false;
        }
        i = i + 1;
    }
    assert(chars@.subrange(from as int, to as int) =~= t@);
    true
}

/// A bound above every number of seconds that fits in an `i64`.
spec fn digits_cap() -> int {
    10_000_000_000_000_000_000
}

/// The effect of a duration directive's value `chars[from..to]`: refused
/// when it does not read as an `i64`, an overflow when it is out of the range
/// of a `time::Duration`.
fn value_effect(chars: &Vec<char>, from: usize, to: usize) -> (r: DirectiveEffect)
    requires
        from <= to <= chars@.len(),
    ensures
        r == match parsed_i64(chars@.subrange(from as int, to as int)) {
            None => DirectiveEffect::Refuse,
            Some(v) => if v > max_duration_secs() || v < -max_duration_secs() {
                DirectiveEffect::Overflow
            } else {
                DirectiveEffect::Continue
            },
        },
{
    let ghost s = chars@.subrange(from as int, to as int);
    let negative = from < to && chars[from] == '-';
    let signed = from < to && (chars[from] == '-' || chars[from] == '+');
    let d0 = if signed {
        from + 1
    } else {
        from
    };
    let ghost digits = chars@.subrange(d0 as int, to as int);
    proof {
        if from < to {
            assert(s[0] == chars@[from as int]);
        }
        if signed {
            assert(digits =~= s.drop_first());
        } else {
            assert(digits =~= s);
        }
    }
    if d0 == to {
        return DirectiveEffect::Refuse;
    }
    let cap: u128 = 10_000_000_000_000_000_000;
    let mut acc: u128 = 0;
    let mut i = d0;
    assert(chars@.subrange(d0 as int, d0 as int) =~= Seq::<char>::empty());
    while i < to
        invariant
            d0 <= i <= to,
            to <= chars@.len(),
            cap == digits_cap(),
            s == chars@.subrange(from as int, to as int),
            digits == chars@.subrange(d0 as int, to as int),
            digits == (if s.len() > 0 && (s[0] == '-' || s[0] == '+') {
                s.drop_first()
            } else {
                s
            }),
            forall|k: int| d0 <= k < i ==> '0' <= #[trigger] chars@[k] && chars@[k] <= '9',
            digits_value(chars@.subrange(d0 as int, i as int)) >= 0,
            acc == (if digits_value(chars@.subrange(d0 as int, i as int)) <= digits_cap() {
                digits_value(chars@.subrange(d0 as int, i as int))
            } else {
                digits_cap() + 1
            }),
        decreases to - i,
    {
        let c = chars[i];
        if !(c >= '0' && c <= '9') {
            assert(digits[i - d0] == c);
            return DirectiveEffect::Refuse;
        }
        let dig = (c as u32 - 48) as u128;
        proof {
            assert(chars@.subrange(d0 as int, i + 1).drop_last() =~= chars@.subrange(d0 as int, i as int));
            assert(chars@.subrange(d0 as int, i + 1).last() == c);
            assert((c as u32) as int == c as int);
        }
        if acc <= cap {
            acc = acc * 10 + dig;
            if acc > cap {
                acc = cap + 1;
            }
        }
        i = i + 1;
    }
    assert(chars@.subrange(d0 as int, to as int) == digits);
    assert(all_digits(digits)) by {
        assert forall|k: int| 0 <= k < digits.len() implies '0' <= #[trigger] digits[k] && digits[k] <= '9' by {
            assert(digits[k] == chars@[d0 + k]);
        }
    }
    if acc > cap {
        return DirectiveEffect::Refuse;
    }
    if negative {
        if acc > 9223372036854775808 {
            return DirectiveEffect::Refuse;
        }
    } else {
        if acc > 9223372036854775807 {
            return DirectiveEffect::Refuse;
        }
    }
    if acc > 9223372036854775 {
        DirectiveEffect::Overflow
    } else {
        DirectiveEffect::Continue
    }
}

/// What reading the directive `chars[from..to]` does.
fn directive_effect_of(chars: &Vec<char>, from: usize, to: usize) -> (r: DirectiveEffect)
    requires
        from <= to <= chars@.len(),
    ensures
        r == directive_effect(chars@.subrange(from as int, to as int)),
{
    let ghost token = chars@.subrange(from as int, to as int);
    let e = piece_end(chars, from, to, '=');
    let (ks, ke) = trim_range(chars, from, e);
    assert(token.take(e - from) =~= chars@.subrange(from as int, e as int));
    let is_key = range_equals(chars, ks, ke, "max-age") || range_equals(chars, ks, ke, "max-stale")
        || range_equals(chars, ks, ke, "min-fresh");
    if !is_key {
        return DirectiveEffect::Continue;
    }
    if e == to {
        return DirectiveEffect::Refuse;
    }
    let f = piece_end(chars, e + 1, to, '=');
    assert(token.skip(e - from + 1) =~= chars@.subrange(e + 1, to as int));
    assert(chars@.subrange(e + 1, to as int).take(f - e - 1) =~= chars@.subrange(e + 1, f as int));
    let (vs, ve) = trim_range(chars, e + 1, f);
    value_effect(chars, vs, ve)
}

/// Whether `cache_control::CacheControl::from_value` would panic on the
/// header value: it meets a `max-age`, `max-stale` or `min-fresh` out of the
/// range of a `time::Duration` before any directive that it refuses.
pub fn header_overflows(value: &str) -> (r: bool)
    ensures
        r == cache_control_overflows(value@),
{
    let chars = chars_of(value);
    let n = chars.len();
    let mut pos: usize = 0;
    assert(chars@.subrange(0, n as int) =~= value@);
    loop
        invariant
            pos <= n,
            n == chars@.len(),
            chars@ == value@,
            cache_control_overflows(value@) == cache_control_overflows(
                chars@.subrange(pos as int, n as int),
            ),
        decreases n + 1 - pos,
    {
        let ghost rest = chars@.subrange(pos as int, n as int);
        let k = piece_end(&chars, pos, n, ',');
        assert(rest.take(k - pos) =~= chars@.subrange(pos as int, k as int));
        let effect = directive_effect_of(&chars, pos, k);
        match effect {
            DirectiveEffect::Overflow => {
                return true;
            },
            DirectiveEffect::Refuse => {
                return false;
            },
            DirectiveEffect::Continue => {
                if k == n {
                    return false;
                }
                assert(rest.skip(k - pos + 1) =~= chars@.subrange(k + 1, n as int));
                pos = k + 1;
            },
        }
    }
}

/// The `max-age` of a `Cache-Control` header value in seconds, as
/// `cache_control::CacheControl::from_value` reads it; `None` when it refuses
/// the value or the value has no `max-age`.
pub uninterp spec fn cache_control_max_age(value: Seq<char>) -> Option<i64>;

/// Reads the `max-age` of a header value with
/// `cache_control::CacheControl::from_value`, in whole seconds
/// (`time::Duration::num_seconds`). The result is named, not stated: it is
/// `cache_control_max_age` of the value. `from_value` panics only on a
/// duration out of the range of `time::Duration`, which `requires` leaves out.
#[verifier::external_body]
fn max_age_of(value: &str) -> (r: Option<i64>)
    requires
        !cache_control_overflows(value@),
    ensures
        r == cache_control_max_age(value@),
{
    match cache_control::CacheControl::from_value(value) {
        Some(cc) => match cc.max_age {
            Some(age) => Some(age.num_seconds()),
            None => None,
        },
        None => None,
    }
}

/// The expiry that the `Cache-Control` header value of the certificates'
/// response gives them: its `max-age`, in seconds after the fetch, when that
/// is not below zero; none without a header or a usable `max-age`.
///
/// The header value must not hold a duration out of range (see
/// `header_overflows`), on which `cache_control` panics.
pub fn expiry_from_header(value: Option<&str>) -> (r: Option<u64>)
    requires
        value matches Some(v) ==> !cache_control_overflows(v@),
    ensures
        r == expiry_for(
            match value {
                Some(v) => cache_control_max_age(v@),
                None => None,
            },
        ),
{
    let max_age = match value {
        Some(v) => max_age_of(v),
        None => None,
    };
    Certificates::expiry_after(max_age)
}

} // verus!
