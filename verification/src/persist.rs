//! The bytes a compiled module is kept in: the engine's own, as they are or
//! wrapped in a gzip stream.

use vstd::prelude::*;
use crate::engine::module_bytes;
use crate::engine::serialize_module;

verus! {

/// `std::io::Error`, a failure while a stream was written or read.
#[verifier::external_type_specification]
#[verifier::external_body]
pub struct ExIoError(std::io::Error);

/// The gzip stream that the compressor makes of the bytes at its best
/// level, if it makes one.
pub uninterp spec fn gzip_stream(data: Seq<u8>) -> Option<Seq<u8>>;

/// The bytes that a gzip stream unpacks to, if it is one.
pub uninterp spec fn gunzip_stream(data: Seq<u8>) -> Option<Seq<u8>>;

/// Why a module could not be turned into bytes or back.
#[derive(Debug)]
pub enum PersistError {
    /// The engine could not serialize the module.
    Serialize(wasmer::SerializeError),
    /// The gzip stream could not be written or read.
    Compress(std::io::Error),
}

/// `flate2::write::GzEncoder` at `Compression::best()`, fed the bytes and
/// finished: the gzip stream of the bytes. Its header carries no time
/// stamp and a fixed system byte, so whether there is a stream, and which,
/// depends on the bytes alone. The stream is one that the decoder unpacks
/// to the same bytes.
#[verifier::external_body]
fn gzip(data: &[u8]) -> (packed: Result<Vec<u8>, std::io::Error>)
    ensures
        packed is Ok <==> gzip_stream(data@) is Some,
        packed matches Ok(bytes) ==> gzip_stream(data@) == Some(bytes@),
        packed matches Ok(bytes) ==> gunzip_stream(bytes@) == Some(data@),
{
    let mut encoder = flate2::write::GzEncoder::new(Vec::new(), flate2::Compression::best());
    std::io::Write::write_all(&mut encoder, data)?;
    encoder.finish()
}

/// `flate2::read::GzDecoder` read to its end: the bytes that the gzip
/// stream unpacks to. It fails when the bytes are no gzip stream.
#[verifier::external_body]
fn gunzip(data: &[u8]) -> (unpacked: Result<Vec<u8>, std::io::Error>)
    ensures
        unpacked is Ok <==> gunzip_stream(data@) is Some,
        unpacked matches Ok(bytes) ==> gunzip_stream(data@) == Some(bytes@),
{
    let mut decoder = flate2::read::GzDecoder::new(data);
    let mut bytes = Vec::new();
    std::io::Read::read_to_end(&mut decoder, &mut bytes)?;
    Ok(bytes)
}

/// Wraps the bytes in a gzip stream. It succeeds exactly on the bytes of
/// which the compressor makes one.
pub fn compress(data: &[u8]) -> (packed: Result<Vec<u8>, PersistError>)
    ensures
        packed is Ok <==> gzip_stream(data@) is Some,
        packed matches Ok(bytes) ==> gzip_stream(data@) == Some(bytes@),
        packed matches Ok(bytes) ==> gunzip_stream(bytes@) == Some(data@),
        packed matches Err(error) ==> error is Compress,
{
    match gzip(data) {
        Ok(bytes) => Ok(bytes),
        Err(error) => Err(PersistError::Compress(error)),
    }
}

/// Unwraps a gzip stream. It succeeds exactly on the bytes that are one.
pub fn decompress(data: &[u8]) -> (unpacked: Result<Vec<u8>, PersistError>)
    ensures
        unpacked is Ok <==> gunzip_stream(data@) is Some,
        unpacked matches Ok(bytes) ==> gunzip_stream(data@) == Some(bytes@),
        unpacked matches Err(error) ==> error is Compress,
{
    match gunzip(data) {
        Ok(bytes) => Ok(bytes),
        Err(error) => Err(PersistError::Compress(error)),
    }
}

/// The engine's bytes of a compiled module.
pub fn serialize(module: &wasmer::Module) -> (bytes: Result<Vec<u8>, PersistError>)
    ensures
        bytes is Ok <==> module_bytes(*module) is Some,
        bytes matches Ok(plain) ==> module_bytes(*module) == Some(plain@),
        bytes matches Err(error) ==> error is Serialize,
{
    match serialize_module(module) {
        Ok(bytes) => Ok(bytes),
        Err(error) => Err(PersistError::Serialize(error)),
    }
}

/// Wraps what the engine made of a module in a gzip stream: a failure is
/// handed on as it is, and bytes are compressed.
pub fn compress_serialized(serialized: Result<Vec<u8>, PersistError>) -> (packed: Result<
    Vec<u8>,
    PersistError,
>)
    ensures
        serialized matches Err(error) ==> packed == Err::<Vec<u8>, PersistError>(error),
        serialized matches Ok(plain) ==> (packed is Ok <==> gzip_stream(plain@) is Some),
        serialized matches Ok(plain) ==> (packed matches Ok(bytes) ==> gzip_stream(plain@) == Some(
            bytes@,
        ) && gunzip_stream(bytes@) == Some(plain@)),
        serialized matches Ok(plain) ==> (packed matches Err(error) ==> error is Compress),
{
    match serialized {
        Ok(plain) => compress(plain.as_slice()),
        Err(error) => Err(error),
    }
}

/// The gzip stream of the engine's bytes of a compiled module, if the
/// engine makes the bytes and the compressor the stream.
pub open spec fn packed_module(module: wasmer::Module) -> Option<Seq<u8>> {
    match module_bytes(module) {
        Some(plain) => gzip_stream(plain),
        None => None,
    }
}

/// The engine's bytes of a compiled module, wrapped in a gzip stream.
pub fn serialize_compress(module: &wasmer::Module) -> (bytes: Result<Vec<u8>, PersistError>)
    ensures
        bytes is Ok <==> packed_module(*module) is Some,
        bytes matches Ok(packed) ==> packed_module(*module) == Some(packed@),
        bytes matches Ok(packed) ==> gunzip_stream(packed@) == module_bytes(*module),
        module_bytes(*module) is None <==> bytes matches Err(PersistError::Serialize(_)),
        bytes matches Err(error) ==> error is Serialize || error is Compress,
{
    let serialized = serialize(module);
    compress_serialized(serialized)
}

} // verus!
