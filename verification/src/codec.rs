//! The bytes that stand for a JSON value: MessagePack in the cache, Base64 where text is wanted.
use crate::msgpack::{free_of_marker, nesting};
use serde_json::Value;
use vstd::prelude::*;

verus! {

/// A JSON value, carried through unread.
#[verifier::external_type_specification]
#[verifier::external_body]
pub struct ExValue(serde_json::Value);

/// What the MessagePack encoder reports where it fails.
#[verifier::external_type_specification]
#[verifier::external_body]
pub struct ExEncodeError(rmp_serde::encode::Error);

/// What the MessagePack decoder reports where it fails.
#[verifier::external_type_specification]
#[verifier::external_body]
pub struct ExDecodeError(rmp_serde::decode::Error);

/// What the Base64 decoder reports where it fails.
#[verifier::external_type_specification]
#[verifier::external_body]
pub struct ExBase64Error(base64::DecodeError);

/// The bytes that `rmp_serde::encode::to_vec` writes for a JSON value.
pub uninterp spec fn msgpack_encoding(value: Value) -> Seq<u8>;

/// The JSON value that `rmp_serde::decode::from_slice` reads from bytes, where it reads one.
pub uninterp spec fn msgpack_decoding(bytes: Seq<u8>) -> Option<Value>;

/// The text that `base64` writes for bytes in its standard alphabet, with padding.
pub uninterp spec fn base64_text(bytes: Seq<u8>) -> Seq<char>;

/// The bytes that `base64` reads from text in its standard alphabet, where it reads any.
pub uninterp spec fn base64_bytes(text: Seq<char>) -> Option<Seq<u8>>;

/// Why a value could not be written or read.
#[derive(Debug, Clone, Copy, PartialEq, Eq, Structural)]
pub enum CodecError {
    /// The value could not be encoded: memory ran out.
    Encode,
    /// The bytes are not the MessagePack encoding of a JSON value.
    Decode,
    /// The text is not Base64.
    Text,
}

/// The depth at which the decoder refuses to open another array or map.
pub const NESTING_LIMIT: u64 = 1024;

/// Whether reading `bytes`, once written for `value`, gives that value back.
///
/// It does wherever arrays and maps nest less deep than the decoder's limit, and the decoder
/// refuses what nests deeper. Nothing is said of more bytes than 32 bits can count, as MessagePack
/// has no longer lengths, nor where a map begins with the key that `serde_json` keeps for its own
/// use, as it takes such a map for the text that it holds.
pub open spec fn reads_back(bytes: Seq<u8>, value: Value) -> bool {
    bytes.len() <= u32::MAX && free_of_marker(bytes) ==> msgpack_decoding(bytes) == if nesting(
        bytes,
    ) < NESTING_LIMIT {
        Some(value)
    } else {
        None
    }
}

/// Calls `rmp_serde::encode::to_vec`.
///
/// Claimed: what is written depends on the value alone, and `rmp_serde::decode::from_slice` reads
/// the value back from it as far as [`reads_back`] says. Whether the call fails depends on the
/// memory that can be had, on the heap and, as values nest, on the stack, so nothing is said of
/// that.
#[verifier::external_body]
fn msgpack_to_vec(value: &Value) -> (encoded: Result<Vec<u8>, rmp_serde::encode::Error>)
    ensures
        encoded matches Ok(bytes) ==> bytes@ == msgpack_encoding(*value),
        encoded matches Ok(bytes) ==> reads_back(bytes@, *value),
{
    rmp_serde::encode::to_vec(value)
}

/// Whether the encoder was called on the value and failed.
pub closed spec fn encoder_failed(value: Value) -> bool {
    exists|error: rmp_serde::encode::Error| #[trigger]
        call_ensures(
            msgpack_to_vec,
            (&value,),
            Err::<Vec<u8>, rmp_serde::encode::Error>(error),
        )
}

/// Where the encoder failed on a value, a call of it on that value gave an error.
proof fn encoder_failed_in_a_call(value: Value) -> (error: rmp_serde::encode::Error)
    requires
        encoder_failed(value),
    ensures
        call_ensures(
            msgpack_to_vec,
            (&value,),
            Err::<Vec<u8>, rmp_serde::encode::Error>(error),
        ),
{
    choose|error: rmp_serde::encode::Error| #[trigger]
        call_ensures(
            msgpack_to_vec,
            (&value,),
            Err::<Vec<u8>, rmp_serde::encode::Error>(error),
        )
}

/// Calls `rmp_serde::decode::from_slice` for a JSON value.
///
/// Claimed: whether a value is read, and which, depends on the bytes alone.
#[verifier::external_body]
fn msgpack_from_slice(bytes: &[u8]) -> (decoded: Result<Value, rmp_serde::decode::Error>)
    ensures
        match decoded {
            Ok(value) => msgpack_decoding(bytes@) == Some(value),
            Err(_) => msgpack_decoding(bytes@) is None,
        },
{
    rmp_serde::decode::from_slice(bytes)
}

/// Calls `base64::Engine::encode` on `base64::engine::general_purpose::STANDARD`.
///
/// Claimed: what is written depends on the bytes alone, and decoding it gives them back. It takes
/// four characters for every three bytes, and like all that allocates it does not return where
/// the memory for them cannot be had.
#[verifier::external_body]
fn base64_encode(bytes: &Vec<u8>) -> (text: String)
    ensures
        text@ == base64_text(bytes@),
        base64_bytes(text@) == Some(bytes@),
{
    base64::Engine::encode(&base64::engine::general_purpose::STANDARD, bytes)
}

/// Calls `base64::Engine::decode` on `base64::engine::general_purpose::STANDARD`.
///
/// Claimed: whether bytes are read, and which, depends on the text alone.
#[verifier::external_body]
fn base64_decode(text: &str) -> (decoded: Result<Vec<u8>, base64::DecodeError>)
    ensures
        match decoded {
            Ok(bytes) => base64_bytes(text@) == Some(bytes@),
            Err(_) => base64_bytes(text@) is None,
        },
{
    base64::Engine::decode(&base64::engine::general_purpose::STANDARD, text)
}

/// The bytes that stand for a value in the cache.
pub fn encode_value(value: &Value) -> (encoded: Result<Vec<u8>, CodecError>)
    ensures
        match encoded {
            Ok(bytes) => bytes@ == msgpack_encoding(*value) && reads_back(bytes@, *value),
            Err(error) => error == CodecError::Encode && encoder_failed(*value),
        },
{
    match msgpack_to_vec(value) {
        Ok(bytes) => Ok(bytes),
        Err(_) => Err(CodecError::Encode),
    }
}

/// The value that bytes of the cache stand for.
pub fn decode_value(bytes: &[u8]) -> (decoded: Result<Value, CodecError>)
    ensures
        match msgpack_decoding(bytes@) {
            Some(value) => decoded == Ok::<Value, CodecError>(value),
            None => decoded == Err::<Value, CodecError>(CodecError::Decode),
        },
{
    match msgpack_from_slice(bytes) {
        Ok(value) => Ok(value),
        Err(_) => Err(CodecError::Decode),
    }
}

/// A value as text: its encoding in Base64.
pub fn value_to_base64(value: &Value) -> (text: Result<String, CodecError>)
    ensures
        match text {
            Ok(text) => {
                &&& text@ == base64_text(msgpack_encoding(*value))
                &&& base64_bytes(text@) == Some(msgpack_encoding(*value))
                &&& reads_back(msgpack_encoding(*value), *value)
            },
            Err(error) => error == CodecError::Encode && encoder_failed(*value),
        },
{
    match encode_value(value) {
        Ok(bytes) => Ok(base64_encode(&bytes)),
        Err(error) => Err(error),
    }
}

/// The value that was written as text.
pub fn value_from_base64(text: &str) -> (value: Result<Value, CodecError>)
    ensures
        match base64_bytes(text@) {
            Some(bytes) => match msgpack_decoding(bytes) {
                Some(decoded) => value == Ok::<Value, CodecError>(decoded),
                None => value == Err::<Value, CodecError>(CodecError::Decode),
            },
            None => value == Err::<Value, CodecError>(CodecError::Text),
        },
{
    match base64_decode(text) {
        Ok(bytes) => decode_value(&bytes),
        Err(_) => Err(CodecError::Text),
    }
}

} // verus!
