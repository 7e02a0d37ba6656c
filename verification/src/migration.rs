//! Checks shared by the external-client migration contracts.
use vstd::prelude::*;

use vstd::utf8::encode_utf8;

use crate::encoding::{framed, push_framed, push_framed_str, zero_digest};
use crate::text::{any_whitespace, has_whitespace, starts_with, str_starts_with};

verus! {

/// An explicit `http://` or `https://` URL with no whitespace in it.
pub open spec fn is_http_endpoint(s: Seq<char>) -> bool {
    (starts_with(s, "https://"@) || starts_with(s, "http://"@)) && !has_whitespace(s)
}

pub fn http_endpoint(value: &str) -> (r: bool)
    ensures
        r == is_http_endpoint(value@),
{
    (str_starts_with(value, "https://") || str_starts_with(value, "http://")) && !any_whitespace(value)
}

/// The bytes an optional text field contributes: its UTF-8 encoding, or
/// nothing when absent.
pub open spec fn opt_text_bytes(o: Option<String>) -> Seq<u8> {
    match o {
        Some(s) => encode_utf8(s@),
        None => Seq::empty(),
    }
}

/// The bytes an optional digest contributes: the digest, or 32 zero bytes.
pub open spec fn opt_digest_bytes(o: Option<[u8; 32]>) -> Seq<u8> {
    match o {
        Some(d) => d@,
        None => zero_digest(),
    }
}

/// The optional text is present and equal to `t`.
pub open spec fn opt_text_is(o: Option<String>, t: Seq<char>) -> bool {
    o matches Some(s) && s@ == t
}

pub fn push_framed_opt_str(out: &mut Vec<u8>, o: &Option<String>)
    ensures
        final(out)@ == old(out)@ + framed(opt_text_bytes(*o)),
{
    match o {
        Some(s) => push_framed_str(out, s.as_str()),
        None => {
            let empty: Vec<u8> = Vec::new();
            push_framed(out, empty.as_slice());
            assert(empty@ =~= opt_text_bytes(*o));
        },
    }
}

pub fn push_framed_opt_digest(out: &mut Vec<u8>, o: &Option<[u8; 32]>)
    ensures
        final(out)@ == old(out)@ + framed(opt_digest_bytes(*o)),
{
    match o {
        Some(d) => push_framed(out, d),
        None => {
            let zero = [0u8; 32];
            assert(zero@ =~= zero_digest());
            push_framed(out, &zero);
        },
    }
}

pub fn opt_str_eq(o: &Option<String>, t: &str) -> (r: bool)
    ensures
        r == opt_text_is(*o, t@),
{
    match o {
        Some(s) => crate::text::str_eq(s.as_str(), t),
        None => false,
    }
}

} // verus!
