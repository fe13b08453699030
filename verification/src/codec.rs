//! Identifiers and encodings: UUIDs, base64url, form encoding, QR codes.

use crate::text;
use base64::Engine;
use vstd::arithmetic::power::*;
use vstd::prelude::*;
use vstd::string::*;
use vstd::utf8::*;

verus! {

// ---------------------------------------------------------------------------
// UUIDs
// ---------------------------------------------------------------------------

/// A lower-case hexadecimal digit.
pub open spec fn hex_lower(n: int) -> char {
    if n < 10 {
        ((48 + n) as u32) as char
    } else {
        ((87 + n) as u32) as char
    }
}

/// The hexadecimal digit `k` of a UUID, counted from the most significant one.
pub open spec fn hex_place(id: u128, k: int) -> char {
    hex_lower(id as int / pow(16, (31 - k) as nat) % 16)
}

/// A UUID in hyphenated form: digits in groups of 8, 4, 4, 4 and 12.
pub open spec fn hyphenated(id: u128) -> Seq<char> {
    Seq::new(
        36,
        |i: int|
            if i < 8 {
                hex_place(id, i)
            } else if i == 8 || i == 13 || i == 18 || i == 23 {
                '-'
            } else if i < 13 {
                hex_place(id, i - 1)
            } else if i < 18 {
                hex_place(id, i - 2)
            } else if i < 23 {
                hex_place(id, i - 3)
            } else {
                hex_place(id, i - 4)
            },
    )
}

/// The UUID that a text denotes in one of the notations that
/// `uuid::Uuid::parse_str` accepts.
pub uninterp spec fn uuid_of(s: Seq<char>) -> Option<u128>;

/// `uuid::Uuid::parse_str`: reads a UUID. What a text denotes depends on the
/// text alone; the hyphenated form of a UUID denotes that UUID.
#[verifier::external_body]
pub(crate) fn parse_uuid(s: &str) -> (r: Option<u128>)
    ensures
        r == uuid_of(s@),
        forall|id: u128| s@ == #[trigger] hyphenated(id) ==> r == Some(id),
{
    match uuid::Uuid::parse_str(s) {
        Ok(u) => Some(u.as_u128()),
        Err(_) => None,
    }
}

/// `<uuid::Uuid as ToString>::to_string`: the hyphenated form, in lower case.
#[verifier::external_body]
pub(crate) fn uuid_text(id: u128) -> (r: String)
    ensures
        r@ == hyphenated(id),
{
    uuid::Uuid::from_u128(id).to_string()
}

/// `uuid::Uuid::new_v4`: a random UUID. Its version is 4 and its variant that
/// of RFC 9562; nothing else is known of it.
#[verifier::external_body]
pub(crate) fn random_uuid() -> (r: u128)
    ensures
        (r >> 76) & 0xf == 4,
        (r >> 62) & 0x3 == 2,
{
    uuid::Uuid::new_v4().as_u128()
}

/// The bytes of a UUID, the most significant one first.
pub open spec fn uuid_octets(id: u128) -> Seq<u8> {
    Seq::new(16, |k: int| (id as int / pow(256, (15 - k) as nat) % 256) as u8)
}

/// `uuid::Uuid::as_bytes`: the bytes of a UUID in network order.
#[verifier::external_body]
pub(crate) fn uuid_bytes(id: u128) -> (r: Vec<u8>)
    ensures
        r@ == uuid_octets(id),
{
    uuid::Uuid::from_u128(id).as_bytes().to_vec()
}

// ---------------------------------------------------------------------------
// base64url
// ---------------------------------------------------------------------------

/// Bytes in base64 with the URL-safe alphabet, without padding.
pub uninterp spec fn base64url(bytes: Seq<u8>) -> Seq<char>;

/// The bytes that an unpadded URL-safe base64 text denotes.
pub uninterp spec fn base64url_bytes(s: Seq<char>) -> Option<Seq<u8>>;

/// `encode` of base64's `URL_SAFE_NO_PAD` engine. A slice is never so long
/// that its encoded length overflows.
#[verifier::external_body]
pub(crate) fn encode_base64url(bytes: &Vec<u8>) -> (r: String)
    ensures
        r@ == base64url(bytes@),
{
    base64::engine::general_purpose::URL_SAFE_NO_PAD.encode(bytes)
}

/// `decode` of base64's `URL_SAFE_NO_PAD` engine: the bytes that a text
/// denotes, which for an encoded text are those that were encoded.
#[verifier::external_body]
pub(crate) fn decode_base64url(s: &str) -> (r: Option<Vec<u8>>)
    ensures
        match r {
            Some(v) => base64url_bytes(s@) == Some(v@),
            None => base64url_bytes(s@) is None,
        },
        forall|b: Seq<u8>| s@ == #[trigger] base64url(b) ==> r is Some && r->0@ == b,
{
    base64::engine::general_purpose::URL_SAFE_NO_PAD.decode(s).ok()
}

// ---------------------------------------------------------------------------
// Form encoding
// ---------------------------------------------------------------------------

/// An upper-case hexadecimal digit.
pub open spec fn hex_upper(n: int) -> char {
    if n < 10 {
        ((48 + n) as u32) as char
    } else {
        ((55 + n) as u32) as char
    }
}

/// Whether a byte stands for itself in a form-encoded text.
pub open spec fn is_form_safe(b: u8) -> bool {
    ||| 0x30 <= b <= 0x39
    ||| 0x41 <= b <= 0x5a
    ||| 0x61 <= b <= 0x7a
    ||| b == 0x2a
    ||| b == 0x2d
    ||| b == 0x2e
    ||| b == 0x5f
}

/// A byte in form encoding: itself, `+` for a space, else `%XX`.
pub open spec fn form_byte(b: u8) -> Seq<char> {
    if is_form_safe(b) {
        seq![b as char]
    } else if b == 0x20 {
        seq!['+']
    } else {
        seq!['%', hex_upper(b as int / 16), hex_upper(b as int % 16)]
    }
}

/// Bytes in form encoding.
pub open spec fn form_encoded(bytes: Seq<u8>) -> Seq<char>
    decreases bytes.len(),
{
    if bytes.len() == 0 {
        Seq::empty()
    } else {
        form_encoded(bytes.drop_last()) + form_byte(bytes.last())
    }
}

/// A query-parameter value: the UTF-8 bytes of a text in form encoding.
pub open spec fn query_value(s: Seq<char>) -> Seq<char> {
    form_encoded(encode_utf8(s))
}

/// `form_urlencoded::byte_serialize`: the pieces it yields, put together, are
/// the bytes in form encoding.
#[verifier::external_body]
pub(crate) fn byte_serialize(bytes: &[u8]) -> (r: String)
    ensures
        r@ == form_encoded(bytes@),
{
    form_urlencoded::byte_serialize(bytes).collect()
}

/// Percent-encodes a query-parameter value.
pub fn qenc(s: &str) -> (r: String)
    ensures
        r@ == query_value(s@),
        form_decoded(r@) == encode_utf8(s@),
{
    proof {
        law_query_value_round_trip(s@);
    }
    byte_serialize(s.as_bytes())
}

/// Whether a character cannot end or split a query-parameter value.
pub open spec fn is_query_safe(c: char) -> bool {
    ||| '0' <= c <= '9'
    ||| 'A' <= c <= 'Z'
    ||| 'a' <= c <= 'z'
    ||| c == '*'
    ||| c == '-'
    ||| c == '.'
    ||| c == '_'
    ||| c == '+'
    ||| c == '%'
}

/// An encoded value holds no character that would end or split it: no `&`,
/// `=`, `#`, `?` or `/`.
pub proof fn law_encoded_is_safe(bytes: Seq<u8>)
    ensures
        forall|i: int|
            0 <= i < form_encoded(bytes).len() ==> is_query_safe(#[trigger] form_encoded(bytes)[i]),
    decreases bytes.len(),
{
    if bytes.len() > 0 {
        law_encoded_is_safe(bytes.drop_last());
        let b = bytes.last();
        assert forall|i: int| 0 <= i < form_byte(b).len() implies is_query_safe(
            #[trigger] form_byte(b)[i],
        ) by {
            assert(b as int / 16 < 16);
        }
        let before = form_encoded(bytes.drop_last());
        assert forall|i: int| 0 <= i < form_encoded(bytes).len() implies is_query_safe(
            #[trigger] form_encoded(bytes)[i],
        ) by {
            if i >= before.len() {
                assert(form_encoded(bytes)[i] == form_byte(b)[i - before.len()]);
            }
        }
    }
}

// ---------------------------------------------------------------------------
// QR codes
// ---------------------------------------------------------------------------

/// The QR code of some bytes as an SVG image: at least `side` pixels wide and
/// high, in the two colours, with its quiet zone; nothing where they do not
/// fit a QR code.
pub uninterp spec fn qr_image(
    bytes: Seq<u8>,
    side: u32,
    dark: Seq<char>,
    light: Seq<char>,
) -> Option<Seq<char>>;

/// `qrcode::QrCode::new` with the SVG renderer: the image depends on the
/// arguments alone.
#[verifier::external_body]
pub(crate) fn qr_svg(bytes: &[u8], side: u32, dark: &str, light: &str) -> (r: Option<String>)
    requires
        side <= 10_000,
    ensures
        text::opt_text(r) == qr_image(bytes@, side, dark@, light@),
{
    match qrcode::QrCode::new(bytes) {
        Ok(code) => Some(
            code.render()
                .min_dimensions(side, side)
                .quiet_zone(true)
                .dark_color(qrcode::render::svg::Color(dark))
                .light_color(qrcode::render::svg::Color(light))
                .build(),
        ),
        Err(_) => None,
    }
}

/// The QR code that is shown for a URI.
pub open spec fn shown_code(uri: Seq<char>) -> Seq<char> {
    qr_or_nothing(uri, qr_image(encode_utf8(uri), 200, "#000000"@, "#ffffff"@))
}

/// Renders an `otpauth://` URI as an inline SVG QR code; empty where there is
/// no URI or it does not fit.
pub fn generate_qr_svg(provisioning_uri: &str) -> (r: String)
    ensures
        r@ == shown_code(provisioning_uri@),
{
    if provisioning_uri.is_empty() {
        return String::new();
    }
    let image = qr_svg(provisioning_uri.as_bytes(), 200, "#000000", "#ffffff");
    shown_qr(provisioning_uri, image)
}

/// What is shown for a URI, given its image.
pub open spec fn qr_or_nothing(uri: Seq<char>, image: Option<Seq<char>>) -> Seq<char> {
    if uri.len() == 0 {
        Seq::empty()
    } else {
        match image {
            Some(svg) => svg,
            None => Seq::empty(),
        }
    }
}

/// What is shown for a URI, given its image: nothing without a URI or image.
pub fn shown_qr(provisioning_uri: &str, image: Option<String>) -> (r: String)
    ensures
        r@ == qr_or_nothing(provisioning_uri@, text::opt_text(image)),
        provisioning_uri@.len() == 0 ==> r@.len() == 0,
        image is None ==> r@.len() == 0,
        provisioning_uri@.len() > 0 ==> (image matches Some(svg) ==> r@ == svg@),
{
    if provisioning_uri.is_empty() {
        return String::new();
    }
    match image {
        Some(svg) => svg,
        None => String::new(),
    }
}

/// What a hexadecimal digit stands for.
pub open spec fn hex_digit_value(c: char) -> int {
    if '0' <= c <= '9' {
        c as int - 48
    } else {
        c as int - 55
    }
}

/// The bytes that form encoding was given.
pub open spec fn form_decoded(s: Seq<char>) -> Seq<u8>
    decreases s.len(),
{
    if s.len() == 0 {
        Seq::empty()
    } else if s[0] == '%' && s.len() >= 3 {
        seq![(16 * hex_digit_value(s[1]) + hex_digit_value(s[2])) as u8] + form_decoded(s.skip(3))
    } else if s[0] == '+' {
        seq![0x20u8] + form_decoded(s.skip(1))
    } else {
        seq![s[0] as u8] + form_decoded(s.skip(1))
    }
}

proof fn lemma_form_byte(b: u8, rest: Seq<char>)
    ensures
        form_decoded(form_byte(b) + rest) == seq![b] + form_decoded(rest),
{
    let s = form_byte(b) + rest;
    if is_form_safe(b) {
        assert(s.skip(1) =~= rest);
        assert(b as char as u8 == b);
    } else if b == 0x20 {
        assert(s.skip(1) =~= rest);
    } else {
        let high = b as int / 16;
        let low = b as int % 16;
        assert(s.skip(3) =~= rest);
        assert(0 <= high < 16 && 0 <= low < 16);
        assert(hex_digit_value(hex_upper(high)) == high);
        assert(hex_digit_value(hex_upper(low)) == low);
        assert(16 * high + low == b);
    }
}

proof fn lemma_form_decoded(bytes: Seq<u8>, rest: Seq<char>)
    ensures
        form_decoded(form_encoded(bytes) + rest) == bytes + form_decoded(rest),
    decreases bytes.len(),
{
    if bytes.len() == 0 {
        assert(form_encoded(bytes) + rest =~= rest);
        assert(bytes + form_decoded(rest) =~= form_decoded(rest));
    } else {
        let tail = form_byte(bytes.last()) + rest;
        lemma_form_decoded(bytes.drop_last(), tail);
        lemma_form_byte(bytes.last(), rest);
        assert(form_encoded(bytes) + rest =~= form_encoded(bytes.drop_last()) + tail);
        assert(bytes.drop_last() + (seq![bytes.last()] + form_decoded(rest)) =~= bytes
            + form_decoded(rest));
    }
}

/// What goes into a query is read back from it: the bytes of every text survive
/// its encoding, so that texts with one encoding are one text.
pub proof fn law_query_value_round_trip(s: Seq<char>)
    ensures
        form_decoded(query_value(s)) == encode_utf8(s),
{
    lemma_form_decoded(encode_utf8(s), Seq::empty());
    assert(query_value(s) + Seq::<char>::empty() =~= query_value(s));
    assert(encode_utf8(s) + form_decoded(Seq::empty()) =~= encode_utf8(s));
}

/// An identifier is written in small hexadecimal digits and hyphens, the hyphens
/// in four fixed places.
pub proof fn law_hyphenated(id: u128)
    ensures
        hyphenated(id).len() == 36,
        forall|i: int|
            0 <= i < 36 ==> if i == 8 || i == 13 || i == 18 || i == 23 {
                #[trigger] hyphenated(id)[i] == '-'
            } else {
                '0' <= hyphenated(id)[i] <= '9' || 'a' <= hyphenated(id)[i] <= 'f'
            },
{
    assert forall|k: int| 0 <= k < 32 implies ('0' <= #[trigger] hex_place(id, k) <= '9' || 'a'
        <= hex_place(id, k) <= 'f') by {
        let n = id as int / pow(16, (31 - k) as nat) % 16;
        assert(0 <= n < 16);
    }
}

/// The code is shown for an address alone: nothing for an empty one, and nothing
/// where none can be drawn.
pub proof fn law_qr(uri: Seq<char>, image: Option<Seq<char>>)
    ensures
        uri.len() == 0 ==> qr_or_nothing(uri, image).len() == 0,
        image is None ==> qr_or_nothing(uri, image).len() == 0,
        uri.len() > 0 ==> (image matches Some(svg) ==> qr_or_nothing(uri, image) == svg),
{
}

/// The code is drawn of the whole address, black on white and two hundred wide;
/// nothing is drawn of an empty address.
pub proof fn law_shown_code(uri: Seq<char>)
    ensures
        uri.len() == 0 ==> shown_code(uri).len() == 0,
        uri.len() > 0 ==> (qr_image(encode_utf8(uri), 200, "#000000"@, "#ffffff"@) matches Some(svg)
            ==> shown_code(uri) == svg),
        qr_image(encode_utf8(uri), 200, "#000000"@, "#ffffff"@) is None ==> shown_code(uri).len()
            == 0,
{
}

} // verus!
