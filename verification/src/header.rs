//! Header values of registry requests, checked as the HTTP library checks them.

use vstd::prelude::*;
use vstd::string::*;
use vstd::utf8::*;
use reqwest::header::{HeaderValue, InvalidHeaderValue};
use crate::endpoint::{bearer_authorization, spec_bearer, lemma_bearer_keeps_token};
use crate::manifest::RegistryError;

verus! {

#[verifier::external_type_specification]
#[verifier::external_body]
pub struct ExHeaderValue(reqwest::header::HeaderValue);

#[verifier::external_type_specification]
#[verifier::external_body]
pub struct ExInvalidHeaderValue(reqwest::header::InvalidHeaderValue);

/// A byte that a header value may hold: tab, or any byte from 32 up except
/// DEL (127).
pub open spec fn header_byte_ok(b: u8) -> bool {
    b >= 32 && b != 127 || b == 9
}

pub open spec fn header_bytes_ok(bytes: Seq<u8>) -> bool {
    forall|i: int| 0 <= i < bytes.len() ==> header_byte_ok(#[trigger] bytes[i])
}

/// A character that a header value may hold: tab, or any character from
/// U+0020 up except DEL (U+007F).
pub open spec fn header_char_ok(c: char) -> bool {
    c == '\t' || (c as u32 >= 32 && c as u32 != 127)
}

pub open spec fn header_text_ok(s: Seq<char>) -> bool {
    forall|i: int| 0 <= i < s.len() ==> header_char_ok(#[trigger] s[i])
}

proof fn lemma_scalar_bytes_ok(c: char)
    ensures
        header_bytes_ok(encode_scalar(c as u32)) <==> header_char_ok(c),
{
    broadcast use char_is_scalar;
    let v = c as u32;
    let e = encode_scalar(v);
    assert(forall|x: u8| #[trigger] (0x80u8 | x) >= 0x80) by (bit_vector);
    if has_width_1_encoding(v) {
        assert(v <= 0x7f ==> (v & 0x7f) as u8 == v) by (bit_vector);
        assert(e =~= seq![v as u8]);
        assert(header_byte_ok(e[0]) <==> header_char_ok(c));
    } else {
        assert(0xC0u8 | ((v >> 6) & 0x1F) as u8 >= 0x80) by (bit_vector);
        assert(0xE0u8 | ((v >> 12) & 0x0F) as u8 >= 0x80) by (bit_vector);
        assert(0xF0u8 | ((v >> 18) & 0x7) as u8 >= 0x80) by (bit_vector);
        assert(0x80u8 | (v & 0x3F) as u8 >= 0x80) by (bit_vector);
        assert(0x80u8 | ((v >> 6) & 0x3F) as u8 >= 0x80) by (bit_vector);
        assert(0x80u8 | ((v >> 12) & 0x3F) as u8 >= 0x80) by (bit_vector);
        assert forall|i: int| 0 <= i < e.len() implies header_byte_ok(#[trigger] e[i]) by {
            assert(e[i] >= 0x80);
        }
    }
}

/// The UTF-8 bytes of a text are fit for a header value exactly when its
/// characters are.
pub proof fn lemma_header_bytes_of_text(s: Seq<char>)
    ensures
        header_bytes_ok(encode_utf8(s)) <==> header_text_ok(s),
    decreases s.len(),
{
    if s.len() > 0 {
        let head = encode_scalar(s[0] as u32);
        let rest = encode_utf8(s.drop_first());
        lemma_scalar_bytes_ok(s[0]);
        lemma_header_bytes_of_text(s.drop_first());
        assert(encode_utf8(s) == head + rest);
        if header_text_ok(s) {
            assert forall|i: int| 0 <= i < s.len() - 1 implies header_char_ok(
                #[trigger] s.drop_first()[i],
            ) by {
                assert(s.drop_first()[i] == s[i + 1]);
            }
            assert(header_char_ok(s[0]));
            assert forall|i: int| 0 <= i < (head + rest).len() implies header_byte_ok(
                #[trigger] (head + rest)[i],
            ) by {
                if i >= head.len() {
                    assert((head + rest)[i] == rest[i - head.len()]);
                } else {
                    assert((head + rest)[i] == head[i]);
                }
            }
        }
        if header_bytes_ok(head + rest) {
            assert forall|i: int| 0 <= i < head.len() implies header_byte_ok(#[trigger] head[i]) by {
                assert((head + rest)[i] == head[i]);
            }
            assert forall|i: int| 0 <= i < rest.len() implies header_byte_ok(#[trigger] rest[i]) by {
                assert((head + rest)[i + head.len()] == rest[i]);
            }
            assert forall|i: int| 0 <= i < s.len() implies header_char_ok(#[trigger] s[i]) by {
                if i > 0 {
                    assert(s[i] == s.drop_first()[i - 1]);
                }
            }
        }
    }
}

/// The bytes that a header value holds.
pub uninterp spec fn header_value_bytes(v: HeaderValue) -> Seq<u8>;

/// `HeaderValue::from_str` of the HTTP library (re-exported by `reqwest`):
/// succeeds exactly when every byte of `text` is a tab or lies from 32 up
/// other than 127, and the value then holds a copy of the bytes of `text`.
#[verifier::external_body]
fn header_value_from_str(text: &str) -> (r: Result<HeaderValue, InvalidHeaderValue>)
    ensures
        r is Ok <==> header_bytes_ok(text.spec_bytes()),
        r matches Ok(v) ==> header_value_bytes(v) == text.spec_bytes(),
{
    HeaderValue::from_str(text)
}

/// The `Authorization` header value `Bearer {token}`; an error when the token
/// holds a character that no header value may hold.
pub fn authorization_header(token: &str) -> (r: Result<HeaderValue, RegistryError>)
    ensures
        r is Ok <==> header_text_ok(token@),
        r matches Ok(v) ==> header_value_bytes(v) == encode_utf8(spec_bearer(token@)),
        r matches Ok(v) ==> header_value_bytes(v) == encode_utf8("Bearer "@ + token@),
        r matches Err(e) ==> e is InvalidHeaderValue,
{
    proof {
        lemma_bearer_keeps_token(token@);
        assert(spec_bearer(token@) =~= "Bearer "@ + token@);
    }
    let text = bearer_authorization(token);
    let res = header_value_from_str(text.as_str());
    proof {
        reveal_strlit("Bearer ");
        lemma_header_bytes_of_text(spec_bearer(token@));
        let full = spec_bearer(token@);
        assert(header_text_ok(full) <==> header_text_ok(token@)) by {
            if header_text_ok(token@) {
                assert forall|i: int| 0 <= i < full.len() implies header_char_ok(#[trigger] full[i]) by {
                    if i >= 7 {
                        assert(full[i] == token@[i - 7]);
                    }
                }
            }
            if header_text_ok(full) {
                assert forall|i: int| 0 <= i < token@.len() implies header_char_ok(
                    #[trigger] token@[i],
                ) by {
                    assert(full[i + 7] == token@[i]);
                }
            }
        }
    }
    match res {
        Ok(v) => Ok(v),
        Err(_) => Err(RegistryError::InvalidHeaderValue),
    }
}

} // verus!
