//! Parsers of configuration text that the library calls: domain names and
//! record types (hickory-proto), addresses (hickory-proto's address data), URLs (url).  Each is a
//! trusted wrapper whose result is named by a specification function of the
//! text it reads.
use vstd::prelude::*;
use crate::names::{all_ascii, ascii_upper, has_ascii_lowercase};

verus! {

/// The presentation text of the name that `hickory_proto::rr::Name::from_str`
/// parses from `s` (None when it rejects `s`).
pub uninterp spec fn spec_name_from_str(s: Seq<char>) -> Option<Seq<char>>;

/// The presentation text of the name that `hickory_proto::rr::Name::from_utf8`
/// parses from `s` (None when it rejects `s`).
pub uninterp spec fn spec_name_from_utf8(s: Seq<char>) -> Option<Seq<char>>;

/// The presentation text of the name that `hickory_proto::rr::Name::from_ascii`
/// parses from `s` (None when it rejects `s`).
pub uninterp spec fn spec_name_from_ascii(s: Seq<char>) -> Option<Seq<char>>;

/// The 32-bit value of the IPv4 address that `hickory_proto::rr::rdata::A::from_str` parses from `s`.
pub uninterp spec fn spec_parse_ipv4(s: Seq<char>) -> Option<u32>;

/// The 128-bit value of the IPv6 address that `hickory_proto::rr::rdata::AAAA::from_str` parses from `s`.
pub uninterp spec fn spec_parse_ipv6(s: Seq<char>) -> Option<u128>;

/// The type code of the record type that `hickory_proto::rr::RecordType::from_str`
/// parses from `s`.
pub uninterp spec fn spec_record_type_from_str(s: Seq<char>) -> Option<u16>;

/// The text that `str::to_uppercase` returns for `s`.
pub uninterp spec fn spec_to_uppercase(s: Seq<char>) -> Seq<char>;

/// For a text that `url::Url::parse` accepts: the URL's host (`Url::host_str`)
/// and its path (`Url::path`).  None when the parse fails.
pub uninterp spec fn spec_url_parts(s: Seq<char>) -> Option<(Option<Seq<char>>, Seq<char>)>;

/// Parses a domain name with `hickory_proto::rr::Name::from_str` (IDNA/UTF-8,
/// falling back to ASCII) and renders it with the name's `Display`.  The
/// contract only names the result as a function of the text.
#[verifier::external_body]
pub(crate) fn parse_name(s: &str) -> (r: Option<String>)
    ensures
        match r {
            Some(t) => spec_name_from_str(s@) == Some(t@),
            None => spec_name_from_str(s@) is None,
        },
{
    match <hickory_proto::rr::Name as std::str::FromStr>::from_str(s) {
        Ok(n) => Some(n.to_string()),
        Err(_) => None,
    }
}

/// Parses a domain name with `hickory_proto::rr::Name::from_utf8` and renders it
/// with the name's `Display`.  The contract only names the result.
#[verifier::external_body]
pub(crate) fn parse_name_utf8(s: &str) -> (r: Option<String>)
    ensures
        match r {
            Some(t) => spec_name_from_utf8(s@) == Some(t@),
            None => spec_name_from_utf8(s@) is None,
        },
{
    match hickory_proto::rr::Name::from_utf8(s) {
        Ok(n) => Some(n.to_string()),
        Err(_) => None,
    }
}

/// Parses a domain name with `hickory_proto::rr::Name::from_ascii` and renders
/// it with the name's `Display`.  The contract only names the result.
#[verifier::external_body]
pub(crate) fn parse_name_ascii(s: &str) -> (r: Option<String>)
    ensures
        match r {
            Some(t) => spec_name_from_ascii(s@) == Some(t@),
            None => spec_name_from_ascii(s@) is None,
        },
{
    match hickory_proto::rr::Name::from_ascii(s) {
        Ok(n) => Some(n.to_string()),
        Err(_) => None,
    }
}

/// Parses an IPv4 address with `hickory_proto::rr::rdata::A::from_str` (which
/// is `Ipv4Addr::from_str`); the result is the address as a 32-bit value.  The
/// contract only names it.
#[verifier::external_body]
pub(crate) fn parse_ipv4(s: &str) -> (r: Option<u32>)
    ensures
        r == spec_parse_ipv4(s@),
{
    match <hickory_proto::rr::rdata::A as std::str::FromStr>::from_str(s) {
        Ok(a) => Some(u32::from(a.0)),
        Err(_) => None,
    }
}

/// Parses an IPv6 address with `hickory_proto::rr::rdata::AAAA::from_str` (which
/// is `Ipv6Addr::from_str`); the result is the address as a 128-bit value.  The
/// contract only names it.
#[verifier::external_body]
pub(crate) fn parse_ipv6(s: &str) -> (r: Option<u128>)
    ensures
        r == spec_parse_ipv6(s@),
{
    match <hickory_proto::rr::rdata::AAAA as std::str::FromStr>::from_str(s) {
        Ok(a) => Some(u128::from(a.0)),
        Err(_) => None,
    }
}

/// Parses a record type mnemonic with `hickory_proto::rr::RecordType::from_str`
/// and returns its type code (`u16::from`).  The source maps "A", "AAAA",
/// "CNAME" and "TXT" to the codes 1, 28, 5 and 16; the contract states those
/// and names the rest.  The function asserts (in debug builds) that its input
/// holds no ASCII lower-case letter, which `requires` excludes.
#[verifier::external_body]
pub(crate) fn record_type_from_str(s: &str) -> (r: Option<u16>)
    requires
        !has_ascii_lowercase(s@),
    ensures
        r == spec_record_type_from_str(s@),
        s@ == "A"@ ==> r == Some(1u16),
        s@ == "AAAA"@ ==> r == Some(28u16),
        s@ == "CNAME"@ ==> r == Some(5u16),
        s@ == "TXT"@ ==> r == Some(16u16),
{
    match <hickory_proto::rr::RecordType as std::str::FromStr>::from_str(s) {
        Ok(t) => Some(u16::from(t)),
        Err(_) => None,
    }
}

/// `str::to_uppercase`.  The contract names the result, and states that an
/// all-ASCII text is upper-cased letter by letter.
#[verifier::external_body]
pub(crate) fn to_uppercase(s: &str) -> (r: String)
    ensures
        r@ == spec_to_uppercase(s@),
        all_ascii(s@) ==> r@ == ascii_upper(s@),
{
    s.to_uppercase()
}

/// `url::Url::parse`, then `Url::host_str` and `Url::path` of the parsed URL.
/// The contract only names the result.
#[verifier::external_body]
pub(crate) fn url_parts(s: &str) -> (r: Option<(Option<String>, String)>)
    ensures
        match r {
            None => spec_url_parts(s@) is None,
            Some((None, p)) => spec_url_parts(s@) == Some((None::<Seq<char>>, p@)),
            Some((Some(h), p)) => spec_url_parts(s@) == Some((Some(h@), p@)),
        },
{
    match url::Url::parse(s) {
        Ok(u) => Some((u.host_str().map(|h| h.to_string()), u.path().to_string())),
        Err(_) => None,
    }
}

} // verus!
