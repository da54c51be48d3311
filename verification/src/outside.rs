//! The calls this crate makes into other crates. Nothing here is proved: each
//! contract repeats what the other crate's source shows, and the rest of the
//! crate is proved against these contracts.
use vstd::prelude::*;
use sha2::Digest;
use crate::digest::hex_text;
use crate::models::object::opt_text;
use crate::net::{CidrBlock, IpAddress};
use crate::text::lower_text;

verus! {

/// The characters that RFC 9110 allows in a token.
pub open spec fn is_tchar(c: char) -> bool {
    ||| ('0' <= c && c <= '9')
    ||| ('a' <= c && c <= 'z')
    ||| ('A' <= c && c <= 'Z')
    ||| c == '!' || c == '#' || c == '$' || c == '%' || c == '&' || c == '\'' || c == '*'
    ||| c == '+' || c == '-' || c == '.' || c == '^' || c == '_' || c == '`' || c == '|'
    ||| c == '~'
}

/// A token: one or more token characters.
pub open spec fn is_token(s: Seq<char>) -> bool {
    s.len() > 0 && forall|i: int| 0 <= i < s.len() ==> is_tchar(#[trigger] s[i])
}

/// A header name: a token of at most 65535 characters.
pub open spec fn is_header_name(s: Seq<char>) -> bool {
    is_token(s) && s.len() <= 65535
}

/// What `url` gives as the ASCII serialisation of the origin of a URL text,
/// if the text parses as an absolute URL.
pub uninterp spec fn origin_of(s: Seq<char>) -> Option<Seq<char>>;

/// What `cidr` reads a text as, if it reads it as a network.
pub uninterp spec fn cidr_of(s: Seq<char>) -> Option<CidrBlock>;

/// What `mime` keeps as the normalised text of a media type, if the text
/// parses as one.
pub uninterp spec fn mime_of(s: Seq<char>) -> Option<Seq<char>>;

/// The SHA-256 digest of a byte string, as `sha2` computes it.
pub uninterp spec fn sha256_of(data: Seq<u8>) -> Seq<u8>;

/// The identifier that `uuid` reads a text as, if it reads it as one.
pub uninterp spec fn uuid_of(s: Seq<char>) -> Option<u128>;

/// The sixteen bytes of an identifier, the most significant first.
pub open spec fn uuid_bytes(x: u128) -> Seq<u8> {
    Seq::new(16, |i: int| ((x >> (((15 - i) * 8) as u128)) & 0xffu128) as u8)
}

/// An identifier in the hyphenated form: 32 lower-case hexadecimal digits in
/// groups of 8, 4, 4, 4 and 12.
pub open spec fn uuid_text(x: u128) -> Seq<char> {
    let h = hex_text(uuid_bytes(x));
    h.subrange(0, 8) + seq!['-'] + h.subrange(8, 12) + seq!['-'] + h.subrange(12, 16) + seq!['-']
        + h.subrange(16, 20) + seq!['-'] + h.subrange(20, 32)
}

/// `url::Url::parse` followed by `Url::origin` and
/// `Origin::ascii_serialization`. The result depends on the text alone; an
/// origin that `url` treats as opaque serialises as `null`.
#[verifier::external_body]
pub(crate) fn parse_origin(s: &str) -> (r: Option<String>)
    ensures
        opt_text(r) == origin_of(s@),
{
    match url::Url::parse(s) {
        Ok(u) => Some(u.origin().ascii_serialization()),
        Err(_) => None,
    }
}

/// `http::Method::from_str`, through axum's re-export. It accepts exactly the
/// non-empty texts made of token characters, and `Method::as_str` gives the
/// text back unchanged.
#[verifier::external_body]
pub(crate) fn parse_method(s: &str) -> (r: Option<String>)
    ensures
        r is Some <==> is_token(s@),
        r matches Some(m) ==> m@ == s@,
{
    match s.parse::<axum::http::Method>() {
        Ok(m) => Some(m.as_str().to_owned()),
        Err(_) => None,
    }
}

/// `http::HeaderName::from_str`, through axum's re-export. It accepts exactly
/// the tokens of at most 65535 characters, and `HeaderName::as_str` gives the
/// text with its ASCII letters in lower case.
#[verifier::external_body]
pub(crate) fn parse_header_name(s: &str) -> (r: Option<String>)
    ensures
        r is Some <==> is_header_name(s@),
        r matches Some(h) ==> h@ == lower_text(s@),
{
    match s.parse::<axum::http::HeaderName>() {
        Ok(h) => Some(h.as_str().to_owned()),
        Err(_) => None,
    }
}

/// `cidr::IpCidr::from_str`, with the network's first address and prefix
/// length taken out as integers. `cidr` refuses a prefix longer than the
/// address and an address with bits set after the prefix, so what it accepts
/// is well formed.
#[verifier::external_body]
pub(crate) fn parse_cidr(s: &str) -> (r: Option<CidrBlock>)
    ensures
        r == cidr_of(s@),
        r matches Some(b) ==> b.wf(),
{
    match s.parse::<cidr::IpCidr>() {
        Ok(cidr::IpCidr::V4(c)) => Some(
            CidrBlock {
                address: IpAddress::V4(u32::from(c.first_address())),
                prefix_len: c.network_length(),
            },
        ),
        Ok(cidr::IpCidr::V6(c)) => Some(
            CidrBlock {
                address: IpAddress::V6(u128::from(c.first_address())),
                prefix_len: c.network_length(),
            },
        ),
        Err(_) => None,
    }
}

/// `mime::Mime::from_str`, with the text that the parsed value keeps, which
/// is the text `mime` orders and compares media types by.
#[verifier::external_body]
pub(crate) fn parse_mime(s: &str) -> (r: Option<String>)
    ensures
        opt_text(r) == mime_of(s@),
{
    match s.parse::<mime::Mime>() {
        Ok(m) => Some(m.as_ref().to_owned()),
        Err(_) => None,
    }
}

/// `sha2::Sha256::digest`. A SHA-256 digest has 32 bytes.
#[verifier::external_body]
pub(crate) fn sha256(data: &[u8]) -> (r: Vec<u8>)
    ensures
        r@ == sha256_of(data@),
        r@.len() == 32,
{
    sha2::Sha256::digest(data).to_vec()
}

/// `uuid::Uuid::parse_str`, as the 128 bits of the identifier.
#[verifier::external_body]
pub(crate) fn parse_uuid(s: &str) -> (r: Option<u128>)
    ensures
        r == uuid_of(s@),
{
    match uuid::Uuid::parse_str(s) {
        Ok(u) => Some(u.as_u128()),
        Err(_) => None,
    }
}

/// `uuid::Uuid::from_u128` and the `Display` of the identifier, which is
/// the hyphenated lower-case form; `uuid` reads every form that it writes.
#[verifier::external_body]
pub(crate) fn format_uuid(x: u128) -> (r: String)
    ensures
        r@ == uuid_text(x),
        uuid_of(r@) == Some(x),
{
    uuid::Uuid::from_u128(x).to_string()
}

/// `uuid::Uuid::new_v4`, as the 128 bits of the identifier. The value is
/// random, so nothing is promised of it.
#[verifier::external_body]
pub(crate) fn random_uuid() -> (r: u128) {
    uuid::Uuid::new_v4().as_u128()
}

} // verus!
