//! Cursors of connections: a cursor's serialized detail is framed as the
//! MessagePack encoding of `CursorEncoding::Basic(bytes)` and written in
//! standard base64.
use vstd::prelude::*;

verus! {

/// A cursor, holding the detail that locates a position in a connection.
#[derive(Debug, Clone)]
pub struct Cursor<T>(pub T);

impl<T> From<T> for Cursor<T> {
    fn from(cursor: T) -> (r: Cursor<T>) {
        Cursor(cursor)
    }
}

impl<T> vstd::std_specs::convert::FromSpecImpl<T> for Cursor<T> {
    open spec fn obeys_from_spec() -> bool {
        true
    }

    open spec fn from_spec(v: T) -> Cursor<T> {
        Cursor(v)
    }
}

impl<T> std::ops::Deref for Cursor<T> {
    type Target = T;

    /// The cursor detail.
    fn deref(&self) -> (r: &T)
        ensures
            *r == self.0,
    {
        &self.0
    }
}

/// The envelope in which a cursor's serialized detail travels.
#[derive(Debug)]
pub enum CursorEncoding<'a> {
    Basic(&'a [u8]),
}

/// The error type of `base64` decoding, carried through opaquely.
#[verifier::external_type_specification]
#[verifier::external_body]
pub struct ExDecodeError(base64::DecodeError);

/// The character of the standard base64 alphabet with value `v` (0 to 63).
pub open spec fn base64_char(v: int) -> char {
    if v < 26 {
        (65 + v) as char
    } else if v < 52 {
        (97 + v - 26) as char
    } else if v < 62 {
        (48 + v - 52) as char
    } else if v == 62 {
        '+'
    } else {
        '/'
    }
}

/// Standard base64 with padding (RFC 4648, section 4): each group of three
/// bytes becomes four characters; a final group of one or two bytes becomes
/// two or three characters followed by `=` padding.
pub open spec fn base64_standard(b: Seq<u8>) -> Seq<char>
    decreases b.len(),
{
    if b.len() == 0 {
        seq![]
    } else if b.len() == 1 {
        seq![base64_char(b[0] as int / 4), base64_char((b[0] as int % 4) * 16), '=', '=']
    } else if b.len() == 2 {
        seq![
            base64_char(b[0] as int / 4),
            base64_char((b[0] as int % 4) * 16 + b[1] as int / 16),
            base64_char((b[1] as int % 16) * 4),
            '=',
        ]
    } else {
        seq![
            base64_char(b[0] as int / 4),
            base64_char((b[0] as int % 4) * 16 + b[1] as int / 16),
            base64_char((b[1] as int % 16) * 4 + b[2] as int / 64),
            base64_char(b[2] as int % 64),
        ] + base64_standard(b.skip(3))
    }
}

/// Whether `c` may stand in standard base64 text: a character of the
/// alphabet, or `=` padding.
pub open spec fn is_base64_text_char(c: char) -> bool {
    ||| ('A' <= c && c <= 'Z')
    ||| ('a' <= c && c <= 'z')
    ||| ('0' <= c && c <= '9')
    ||| c == '+'
    ||| c == '/'
    ||| c == '='
}

/// What `base64::decode` (standard alphabet, padding required, no trailing
/// bits) reads from the text; `None` when the text is not valid base64.
pub uninterp spec fn base64_decoded(text: Seq<char>) -> Option<Seq<u8>>;

/// Writes bytes in standard base64 with padding (`base64::encode`).
#[verifier::external_body]
fn base64_encode(bytes: &[u8]) -> (r: String)
    requires
        (bytes@.len() + 2) / 3 * 4 <= usize::MAX,
    ensures
        r@ == base64_standard(bytes@),
{
    base64::encode(bytes)
}

/// Reads standard base64 (`base64::decode`). The result is named: it is
/// `base64_decoded` of the text; the text that encoding gives for some bytes
/// decodes back to exactly those bytes; a text with a character that is
/// neither of the alphabet nor `=` is refused, since each of its bytes is
/// looked up in the decoding table.
#[verifier::external_body]
fn base64_decode(text: &str) -> (r: Result<Vec<u8>, base64::DecodeError>)
    ensures
        r is Ok <==> base64_decoded(text@) is Some,
        r matches Ok(v) ==> base64_decoded(text@) == Some(v@),
        r matches Ok(v) ==> forall|b: Seq<u8>| #[trigger] base64_standard(b) == text@ ==> v@ == b,
        r is Err ==> forall|b: Seq<u8>| #[trigger] base64_standard(b) != text@,
        (exists|i: int| 0 <= i < text@.len() && !is_base64_text_char(#[trigger] text@[i])) ==> r is Err,
{
    base64::decode(text)
}

/// The MessagePack length header of a binary value of `n` bytes: `bin 8`,
/// `bin 16` or `bin 32`, whichever is the smallest that holds `n`.
pub open spec fn bin_header(n: nat) -> Seq<u8> {
    if n < 256 {
        seq![0xc4u8, n as u8]
    } else if n < 65536 {
        seq![0xc5u8, (n / 256) as u8, (n % 256) as u8]
    } else {
        seq![
            0xc6u8,
            (n / 0x1000000) as u8,
            ((n / 0x10000) % 256) as u8,
            ((n / 256) % 256) as u8,
            (n % 256) as u8,
        ]
    }
}

/// The MessagePack encoding of `CursorEncoding::Basic(payload)`: a map of one
/// entry from the variant's index (0) to the payload as a binary value.
pub open spec fn cursor_frame(payload: Seq<u8>) -> Seq<u8> {
    seq![0x81u8, 0x00u8] + bin_header(payload.len()) + payload
}

/// The MessagePack header of a map of `n` entries: `fixmap`, `map 16` or
/// `map 32`, whichever is the smallest that holds `n`.
pub open spec fn map_header(n: nat) -> Seq<u8> {
    if n < 16 {
        seq![(0x80 + n) as u8]
    } else if n < 65536 {
        seq![0xdeu8, (n / 256) as u8, (n % 256) as u8]
    } else {
        seq![
            0xdfu8,
            (n / 0x1000000) as u8,
            ((n / 0x10000) % 256) as u8,
            ((n / 256) % 256) as u8,
            (n % 256) as u8,
        ]
    }
}

/// Appends the MessagePack header of a map of `len` entries to `out`
/// (`rmp::encode::write_map_len`). Writing to a `Vec<u8>` appends to it and
/// does not fail.
#[verifier::external_body]
fn write_map_len(out: &mut Vec<u8>, len: u32)
    ensures
        final(out)@ == old(out)@ + map_header(len as nat),
{
    let _ = rmp::encode::write_map_len(out, len);
}

/// Appends a positive fixnum to `out` (`rmp::encode::write_pfix`): the value
/// itself, as one byte. `write_pfix` panics on values above 127.
#[verifier::external_body]
fn write_pfix(out: &mut Vec<u8>, val: u8)
    requires
        val < 128,
    ensures
        final(out)@ == old(out)@.push(val),
{
    let _ = rmp::encode::write_pfix(out, val);
}

/// Appends `data` to `out` as a MessagePack binary value
/// (`rmp::encode::write_bin`): its length header, then the bytes. The length
/// is written as a `u32`, so longer data is left out.
#[verifier::external_body]
fn write_bin(out: &mut Vec<u8>, data: &[u8])
    requires
        data@.len() <= u32::MAX,
    ensures
        final(out)@ == old(out)@ + bin_header(data@.len()) + data@,
{
    let _ = rmp::encode::write_bin(out, data);
}

impl<'a> CursorEncoding<'a> {
    /// The MessagePack encoding of the envelope, as `rmp_serde` writes an
    /// enum variant: a map of one entry from the variant's index to its
    /// payload.
    pub fn to_bytes(&self) -> (r: Vec<u8>)
        requires
            match self {
                CursorEncoding::Basic(payload) => payload@.len() <= u32::MAX,
            },
        ensures
            match self {
                CursorEncoding::Basic(payload) => r@ == cursor_frame(payload@),
            },
    {
        match self {
            CursorEncoding::Basic(payload) => {
                let mut out: Vec<u8> = Vec::new();
                write_map_len(&mut out, 1);
                write_pfix(&mut out, 0);
                write_bin(&mut out, payload);
                assert(out@ =~= cursor_frame(payload@));
                out
            },
        }
    }
}

/// The text of a cursor whose detail serializes to `serialized`: the framed
/// detail in standard base64.
pub fn encode_cursor_bytes(serialized: &[u8]) -> (r: String)
    requires
        serialized@.len() <= u32::MAX,
        (serialized@.len() + 9) / 3 * 4 <= usize::MAX,
    ensures
        r@ == base64_standard(cursor_frame(serialized@)),
{
    let framed = CursorEncoding::Basic(serialized).to_bytes();
    assert(framed@.len() <= serialized@.len() + 7);
    base64_encode(framed.as_slice())
}

/// The framed detail that a cursor's text carries: the text read as standard
/// base64. Fails with the decoding error when the text is not valid base64.
///
/// The text of a cursor written by `encode_cursor_bytes` gives back the framed
/// detail it was written from; a text with a character outside the base64
/// alphabet and `=` is refused.
pub fn decode_cursor_text(s: &str) -> (r: Result<Vec<u8>, base64::DecodeError>)
    ensures
        r is Ok <==> base64_decoded(s@) is Some,
        r matches Ok(v) ==> base64_decoded(s@) == Some(v@),
        (exists|i: int| 0 <= i < s@.len() && !is_base64_text_char(#[trigger] s@[i])) ==> r is Err,
        forall|p: Seq<u8>| #[trigger] base64_standard(cursor_frame(p)) == s@ ==> (r matches Ok(v) && v@
            == cursor_frame(p)),
{
    let r = base64_decode(s);
    assert forall|p: Seq<u8>| #[trigger] base64_standard(cursor_frame(p)) == s@ implies (r matches Ok(v)
        && v@ == cursor_frame(p)) by {
        let b = cursor_frame(p);
        if r is Err {
            assert(base64_standard(b) != s@);
        }
    }
    r
}

} // verus!
