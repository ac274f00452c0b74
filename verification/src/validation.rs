//! What a stream may be called and where it may point.
//!
//! Lengths are counted in bytes of the UTF-8 encoding. The accepted
//! characters are all ASCII, so a text with any other character is rejected.

use crate::error::ContractError;
use vstd::prelude::*;
use vstd::utf8::encode_utf8;

verus! {

/// Shortest accepted name, in bytes.
pub const MIN_NAME_LENGTH: usize = 2;

/// Longest accepted name, in bytes.
pub const MAX_NAME_LENGTH: usize = 64;

/// Shortest accepted URL, in bytes.
pub const MIN_URL_LENGTH: usize = 12;

/// Longest accepted URL, in bytes.
pub const MAX_URL_LENGTH: usize = 128;

/// An ASCII letter or digit.
pub open spec fn is_alphanumeric(b: u8) -> bool {
    (0x30 <= b <= 0x39) || (0x41 <= b <= 0x5a) || (0x61 <= b <= 0x7a)
}

/// A byte that may stand in a name: a letter, a digit, a space, `-` or `_`.
pub open spec fn is_name_byte(b: u8) -> bool {
    is_alphanumeric(b) || b == 0x20 || b == 0x2d || b == 0x5f
}

/// A byte that may stand in a URL: a letter, a digit, or one of
/// `-._~:/?#[]@!$&'()*+,;=%`.
pub open spec fn is_url_byte(b: u8) -> bool {
    is_alphanumeric(b) || b == 0x2d || b == 0x2e || b == 0x5f || b == 0x7e || b == 0x3a || b
        == 0x2f || b == 0x3f || b == 0x23 || b == 0x5b || b == 0x5d || b == 0x40 || b == 0x21
        || b == 0x24 || b == 0x26 || b == 0x27 || b == 0x28 || b == 0x29 || b == 0x2a || b
        == 0x2b || b == 0x2c || b == 0x3b || b == 0x3d || b == 0x25
}

/// Whether every byte may stand in a name.
pub open spec fn all_name_bytes(bytes: Seq<u8>) -> bool {
    forall|i: int| 0 <= i < bytes.len() ==> is_name_byte(#[trigger] bytes[i])
}

/// Whether every byte may stand in a URL.
pub open spec fn all_url_bytes(bytes: Seq<u8>) -> bool {
    forall|i: int| 0 <= i < bytes.len() ==> is_url_byte(#[trigger] bytes[i])
}

/// The verdict on a name.
pub open spec fn name_verdict(name: Seq<char>) -> Result<(), ContractError> {
    let bytes = encode_utf8(name);
    if bytes.len() < MIN_NAME_LENGTH {
        Err(ContractError::StreamNameTooShort)
    } else if bytes.len() > MAX_NAME_LENGTH {
        Err(ContractError::StreamNameTooLong)
    } else if !all_name_bytes(bytes) {
        Err(ContractError::InvalidStreamName)
    } else {
        Ok(())
    }
}

/// The verdict on a URL.
pub open spec fn url_verdict(url: Seq<char>) -> Result<(), ContractError> {
    let bytes = encode_utf8(url);
    if bytes.len() < MIN_URL_LENGTH {
        Err(ContractError::StreamUrlTooShort)
    } else if bytes.len() > MAX_URL_LENGTH {
        Err(ContractError::StreamUrlTooLong)
    } else if !all_url_bytes(bytes) {
        Err(ContractError::InvalidStreamUrl)
    } else {
        Ok(())
    }
}

/// The verdict on a name and an optional URL: the name is judged first.
pub open spec fn name_and_url_verdict(name: Seq<char>, url: Option<Seq<char>>) -> Result<
    (),
    ContractError,
> {
    if name_verdict(name) is Err {
        name_verdict(name)
    } else {
        match url {
            Some(u) => url_verdict(u),
            None => Ok(()),
        }
    }
}

/// Whether a byte is an ASCII letter or digit.
pub fn byte_is_alphanumeric(b: u8) -> (r: bool)
    ensures
        r == is_alphanumeric(b),
{
    (0x30 <= b && b <= 0x39) || (0x41 <= b && b <= 0x5a) || (0x61 <= b && b <= 0x7a)
}

/// Whether a byte may stand in a name.
pub fn byte_is_name(b: u8) -> (r: bool)
    ensures
        r == is_name_byte(b),
{
    byte_is_alphanumeric(b) || b == 0x20 || b == 0x2d || b == 0x5f
}

/// Whether a byte may stand in a URL.
pub fn byte_is_url(b: u8) -> (r: bool)
    ensures
        r == is_url_byte(b),
{
    byte_is_alphanumeric(b) || b == 0x2d || b == 0x2e || b == 0x5f || b == 0x7e || b == 0x3a || b
        == 0x2f || b == 0x3f || b == 0x23 || b == 0x5b || b == 0x5d || b == 0x40 || b == 0x21
        || b == 0x24 || b == 0x26 || b == 0x27 || b == 0x28 || b == 0x29 || b == 0x2a || b
        == 0x2b || b == 0x2c || b == 0x3b || b == 0x3d || b == 0x25
}

/// Judges a stream name: between two and sixty-four bytes of letters,
/// digits, spaces, `-` and `_`.
pub fn check_name(name: &str) -> (r: Result<(), ContractError>)
    ensures
        r == name_verdict(name@),
{
    let bytes = name.as_bytes();
    if bytes.len() < MIN_NAME_LENGTH {
        return Err(ContractError::StreamNameTooShort);
    }
    if bytes.len() > MAX_NAME_LENGTH {
        return Err(ContractError::StreamNameTooLong);
    }
    let mut i: usize = 0;
    while i < bytes.len()
        invariant
            i <= bytes@.len(),
            bytes@ == encode_utf8(name@),
            MIN_NAME_LENGTH <= bytes@.len() <= MAX_NAME_LENGTH,
            forall|j: int| 0 <= j < i ==> is_name_byte(#[trigger] bytes@[j]),
        decreases bytes@.len() - i,
    {
        if !byte_is_name(bytes[i]) {
            assert(!is_name_byte(bytes@[i as int]));
            return Err(ContractError::InvalidStreamName);
        }
        i += 1;
    }
    Ok(())
}

/// Judges a stream URL: between twelve and a hundred and twenty-eight bytes
/// of letters, digits and URL punctuation.
pub fn check_url(url: &str) -> (r: Result<(), ContractError>)
    ensures
        r == url_verdict(url@),
{
    let bytes = url.as_bytes();
    if bytes.len() < MIN_URL_LENGTH {
        return Err(ContractError::StreamUrlTooShort);
    }
    if bytes.len() > MAX_URL_LENGTH {
        return Err(ContractError::StreamUrlTooLong);
    }
    let mut i: usize = 0;
    while i < bytes.len()
        invariant
            i <= bytes@.len(),
            bytes@ == encode_utf8(url@),
            MIN_URL_LENGTH <= bytes@.len() <= MAX_URL_LENGTH,
            forall|j: int| 0 <= j < i ==> is_url_byte(#[trigger] bytes@[j]),
        decreases bytes@.len() - i,
    {
        if !byte_is_url(bytes[i]) {
            assert(!is_url_byte(bytes@[i as int]));
            return Err(ContractError::InvalidStreamUrl);
        }
        i += 1;
    }
    Ok(())
}

/// Judges a name and an optional URL; the name is judged first.
pub fn check_name_and_url(name: &String, url: &Option<String>) -> (r: Result<(), ContractError>)
    ensures
        r == name_and_url_verdict(
            name@,
            match *url {
                Some(u) => Some(u@),
                None => None,
            },
        ),
{
    match check_name(name.as_str()) {
        Err(e) => Err(e),
        Ok(()) => match url {
            Some(u) => check_url(u.as_str()),
            None => Ok(()),
        },
    }
}

} // verus!
