//! Compressing a body under one of the content encodings.

use vstd::prelude::*;
use std::io::Write;
use brotli::enc::backward_references::BrotliEncoderParams;
use flate2::write::{DeflateEncoder, GzEncoder};
use flate2::Compression;
use crate::exception::Exception;
use crate::param::HttpEncoding;

verus! {

/// `std::io::Error`, which the encoders fail with, carried as it is.
#[verifier::external_type_specification]
#[verifier::external_body]
pub struct ExIoError(std::io::Error);

/// What flate2 makes of `data` as a gzip stream at its default level: the
/// stream, or nothing where the encoder fails on this data.
pub uninterp spec fn gzip_of(data: Seq<u8>) -> Option<Seq<u8>>;

/// What flate2 makes of `data` as a raw deflate stream at its default
/// level: the stream, or nothing where the encoder fails on this data.
pub uninterp spec fn deflate_of(data: Seq<u8>) -> Option<Seq<u8>>;

/// Runs flate2's `GzEncoder` over `data`: `new` on an empty vector at the
/// default level, `write_all`, `finish`. The header carries no time stamp,
/// file name or operating system, and the stream is written into memory, so
/// both whether the encoder succeeds and what it writes depend on `data`
/// alone.
#[verifier::external_body]
pub(crate) fn gzip(data: &Vec<u8>) -> (res: Result<Vec<u8>, std::io::Error>)
    ensures
        match res {
            Ok(out) => gzip_of(data@) == Some(out@),
            Err(_) => gzip_of(data@) is None,
        },
{
    let mut encoder = GzEncoder::new(Vec::new(), Compression::default());
    encoder.write_all(data)?;
    encoder.finish()
}

/// Runs flate2's `DeflateEncoder` over `data`: `new` on an empty vector at
/// the default level, `write_all`, `finish`. The stream is written into
/// memory, so both whether the encoder succeeds and what it writes depend
/// on `data` alone.
#[verifier::external_body]
pub(crate) fn deflate(data: &Vec<u8>) -> (res: Result<Vec<u8>, std::io::Error>)
    ensures
        match res {
            Ok(out) => deflate_of(data@) == Some(out@),
            Err(_) => deflate_of(data@) is None,
        },
{
    let mut encoder = DeflateEncoder::new(Vec::new(), Compression::default());
    encoder.write_all(data)?;
    encoder.finish()
}

/// Runs brotli's `BrotliCompress` over `data` with the default parameters.
/// The encoder weighs its choices by logarithms that the standard library
/// computes to a precision that may differ from one machine to the next, so
/// the stream is not a matter of `data` alone, and nothing is claimed about
/// it.
#[verifier::external_body]
pub(crate) fn brotli(data: &Vec<u8>) -> (res: Result<Vec<u8>, std::io::Error>) {
    let params = BrotliEncoderParams::default();
    let mut output = Vec::new();
    brotli::enc::BrotliCompress(&mut std::io::Cursor::new(data), &mut output, &params)?;
    Ok(output)
}

/// What an encoder's answer comes to: its stream, or `CompressionFailed`
/// where it gave none.
pub open spec fn settled(stream: Option<Seq<u8>>) -> Result<Seq<u8>, Exception> {
    match stream {
        Some(s) => Ok(s),
        None => Err(Exception::CompressionFailed),
    }
}

/// Whether `res` is what compressing `data` under `mode` comes to.
///
/// Without an encoding the data go through unchanged, and that cannot fail.
/// Gzip and deflate give the stream that the encoder writes for the data,
/// and fail exactly where the encoder does. Brotli gives some stream or
/// fails; which stream is not pinned down.
pub open spec fn compresses(
    data: Seq<u8>,
    mode: Option<HttpEncoding>,
    res: Result<Seq<u8>, Exception>,
) -> bool {
    match mode {
        None => res == Ok::<Seq<u8>, Exception>(data),
        Some(HttpEncoding::Gzip) => res == settled(gzip_of(data)),
        Some(HttpEncoding::Deflate) => res == settled(deflate_of(data)),
        Some(HttpEncoding::Br) => res is Err ==> res == Err::<Seq<u8>, Exception>(
            Exception::CompressionFailed,
        ),
    }
}

/// The outcome of a compression, with the stream taken by its view.
pub open spec fn stream_view(res: Result<Vec<u8>, Exception>) -> Result<Seq<u8>, Exception> {
    match res {
        Ok(out) => Ok(out@),
        Err(e) => Err(e),
    }
}

/// Turns what an encoder handed back into the library's own result: the
/// stream as it is, or `CompressionFailed` for any failure.
pub fn settle(outcome: Result<Vec<u8>, std::io::Error>) -> (res: Result<Vec<u8>, Exception>)
    ensures
        match outcome {
            Ok(out) => res == Ok::<Vec<u8>, Exception>(out),
            Err(_) => res == Err::<Vec<u8>, Exception>(Exception::CompressionFailed),
        },
{
    match outcome {
        Ok(out) => Ok(out),
        Err(_) => Err(Exception::CompressionFailed),
    }
}

/// Compresses `data` under `mode`; `None` hands the data back as it is and
/// cannot fail.
pub fn compress(data: Vec<u8>, mode: Option<HttpEncoding>) -> (res: Result<Vec<u8>, Exception>)
    ensures
        compresses(data@, mode, stream_view(res)),
{
    match mode {
        Some(HttpEncoding::Gzip) => settle(gzip(&data)),
        Some(HttpEncoding::Deflate) => settle(deflate(&data)),
        Some(HttpEncoding::Br) => settle(brotli(&data)),
        None => Ok(data),
    }
}

/// Whether `list` names `encoding`.
pub open spec fn accepts(list: Seq<HttpEncoding>, encoding: HttpEncoding) -> bool {
    list.contains(encoding)
}

/// The encoding that the server picks among those a client accepts: gzip
/// before deflate, and none where it accepts neither. Brotli is never
/// picked.
pub open spec fn negotiated(accepted: Seq<HttpEncoding>) -> Option<HttpEncoding> {
    if accepts(accepted, HttpEncoding::Gzip) {
        Some(HttpEncoding::Gzip)
    } else if accepts(accepted, HttpEncoding::Deflate) {
        Some(HttpEncoding::Deflate)
    } else {
        None
    }
}

/// What `data` become under the encoding negotiated with a client that
/// accepts `accepted`: the gzip stream where gzip is accepted, else the
/// deflate stream where deflate is, else the data as they are; nothing
/// where the encoder fails on the data.
pub open spec fn negotiated_stream(data: Seq<u8>, accepted: Seq<HttpEncoding>) -> Option<Seq<u8>> {
    if accepts(accepted, HttpEncoding::Gzip) {
        gzip_of(data)
    } else if accepts(accepted, HttpEncoding::Deflate) {
        deflate_of(data)
    } else {
        Some(data)
    }
}

/// Negotiation never picks brotli, and compressing under what it picks
/// comes to the negotiated stream, or to `CompressionFailed` where there is
/// none.
pub proof fn lemma_negotiated_compression(
    data: Seq<u8>,
    accepted: Seq<HttpEncoding>,
    res: Result<Seq<u8>, Exception>,
)
    requires
        compresses(data, negotiated(accepted), res),
    ensures
        negotiated(accepted) != Some(HttpEncoding::Br),
        res == settled(negotiated_stream(data, accepted)),
{
}

/// Whether `list` names `encoding`.
pub fn names(list: &Vec<HttpEncoding>, encoding: HttpEncoding) -> (found: bool)
    ensures
        found == accepts(list@, encoding),
{
    let mut i: usize = 0;
    while i < list.len()
        invariant
            i <= list.len(),
            forall|k: int| 0 <= k < i ==> list@[k] != encoding,
        decreases list.len() - i,
    {
        if list[i] == encoding {
            return true;
        }
        i += 1;
    }
    false
}

/// Picks the encoding for a body from what the client accepts.
pub fn decide_encoding(accept_encoding: &Vec<HttpEncoding>) -> (choice: Option<HttpEncoding>)
    ensures
        choice == negotiated(accept_encoding@),
{
    if names(accept_encoding, HttpEncoding::Gzip) {
        Some(HttpEncoding::Gzip)
    } else if names(accept_encoding, HttpEncoding::Deflate) {
        Some(HttpEncoding::Deflate)
    } else {
        None
    }
}

} // verus!
