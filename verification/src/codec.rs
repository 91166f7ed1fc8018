//! The outside codecs the library relies on: SHA-1, hexadecimal, base64 and
//! zlib. What each contract claims is believed, not proved.

use vstd::prelude::*;
use crate::text::digit_char;

verus! {

/// The SHA-1 digest of `data`.
pub uninterp spec fn sha1_digest(data: Seq<u8>) -> Seq<u8>;

/// `openssl::sha::sha1` returns the SHA-1 digest of its argument, which
/// depends on the bytes alone; the array type fixes its length at twenty.
pub assume_specification[ openssl::sha::sha1 ](data: &[u8]) -> (digest: [u8; 20])
    ensures
        digest@ == sha1_digest(data@),
;

/// `data` in hexadecimal: two lower-case digits for each byte, the high
/// half first.
pub open spec fn hex_of_bytes(data: Seq<u8>) -> Seq<char> {
    Seq::new(
        2 * data.len(),
        |i: int|
            if i % 2 == 0 {
                digit_char(data[i / 2] as int / 16)
            } else {
                digit_char(data[i / 2] as int % 16)
            },
    )
}

/// `hex::encode` writes each byte as two lower-case hexadecimal digits.
#[verifier::external_body]
pub(crate) fn hex_encode(data: &[u8]) -> (text: String)
    ensures
        text@ == hex_of_bytes(data@),
{
    hex::encode(data)
}

/// `std::io::Error`, which the encoder's methods fail with. Nothing is said
/// of what is in one.
#[verifier::external_type_specification]
#[verifier::external_body]
pub struct ExIoError(std::io::Error);

/// A `flate2::write::ZlibEncoder` that compresses into a byte buffer.
#[verifier::external_body]
pub struct ZlibWriter {
    inner: flate2::write::ZlibEncoder<Vec<u8>>,
}

/// The bytes written into an encoder so far.
pub uninterp spec fn zlib_written(writer: ZlibWriter) -> Seq<u8>;

/// Whether an encoder that has taken in `written` takes in `data` as well.
pub uninterp spec fn zlib_takes(written: Seq<u8>, data: Seq<u8>) -> bool;

/// The zlib stream that an encoder at the default level leaves when it is
/// closed after taking in `written`, or `None` where it cannot be closed.
pub uninterp spec fn zlib_closed(written: Seq<u8>) -> Option<Seq<u8>>;

/// `ZlibEncoder::new` over an empty buffer, at `Compression::default()`:
/// nothing has been written into the new encoder.
#[verifier::external_body]
pub(crate) fn zlib_writer() -> (writer: ZlibWriter)
    ensures
        zlib_written(writer) == Seq::<u8>::empty(),
{
    ZlibWriter {
        inner: flate2::write::ZlibEncoder::new(Vec::new(), flate2::Compression::default()),
    }
}

/// `write_all` on a `ZlibEncoder` over a byte buffer: whether it succeeds
/// rests on the bytes written before and on `data` alone, and where it does,
/// all of `data` has been taken in after what was written before.
#[verifier::external_body]
pub(crate) fn zlib_write_all(writer: &mut ZlibWriter, data: &[u8]) -> (done: Result<
    (),
    std::io::Error,
>)
    ensures
        done is Ok <==> zlib_takes(zlib_written(*old(writer)), data@),
        done is Ok ==> zlib_written(*final(writer)) == zlib_written(*old(writer)) + data@,
{
    std::io::Write::write_all(&mut writer.inner, data)
}

/// `ZlibEncoder::finish` over a byte buffer: what it gives rests on the
/// bytes written alone. Where it succeeds, the buffer holds the zlib stream
/// of all that was written.
#[verifier::external_body]
pub(crate) fn zlib_finish(writer: ZlibWriter) -> (stream: Result<Vec<u8>, std::io::Error>)
    ensures
        match stream {
            Ok(bytes) => zlib_closed(zlib_written(writer)) == Some(bytes@),
            Err(_) => zlib_closed(zlib_written(writer)) is None,
        },
{
    writer.inner.finish()
}

/// The sixty-four symbols of standard base64, in the order of their values.
pub open spec fn base64_alphabet() -> Seq<char> {
    "ABCDEFGHIJKLMNOPQRSTUVWXYZabcdefghijklmnopqrstuvwxyz0123456789+/"@
}

/// Symbol `i` of the base64 text of `data`. Each group of three bytes gives
/// four symbols of six bits each; a last group of one or two bytes is filled
/// up with zero bits and closed with `=`.
pub open spec fn base64_symbol(data: Seq<u8>, i: int) -> char {
    let at = 3 * (i / 4);
    let b0 = data[at] as int;
    let b1 = if at + 1 < data.len() {
        data[at + 1] as int
    } else {
        0
    };
    let b2 = if at + 2 < data.len() {
        data[at + 2] as int
    } else {
        0
    };
    if i % 4 == 0 {
        base64_alphabet()[b0 / 4]
    } else if i % 4 == 1 {
        base64_alphabet()[(b0 % 4) * 16 + b1 / 16]
    } else if i % 4 == 2 {
        if at + 1 < data.len() {
            base64_alphabet()[(b1 % 16) * 4 + b2 / 64]
        } else {
            '='
        }
    } else {
        if at + 2 < data.len() {
            base64_alphabet()[b2 % 64]
        } else {
            '='
        }
    }
}

/// `data` in standard base64 with padding.
pub open spec fn base64_text(data: Seq<u8>) -> Seq<char> {
    Seq::new(4 * ((data.len() + 2) / 3), |i: int| base64_symbol(data, i))
}

/// Whether the base64 text of `len` bytes has a length that fits in `usize`.
pub open spec fn base64_fits(len: nat) -> bool {
    (len / 3) * 4 + 4 <= usize::MAX
}

/// `base64::encode` gives the standard base64 text of its argument, with
/// padding. It panics where the length of that text overflows `usize`.
#[verifier::external_body]
pub(crate) fn base64_encode(data: &[u8]) -> (text: String)
    requires
        base64_fits(data@.len()),
    ensures
        text@ == base64_text(data@),
{
    base64::encode(data)
}

} // verus!
