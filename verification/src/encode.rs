//! The wire form of a quote: a one-character tag, then the base64 text of
//! the zlib stream of the raw quote.

use vstd::prelude::*;
use vstd::utf8::encode_utf8;
use crate::codec::{
    base64_alphabet, base64_encode, base64_fits, base64_symbol, base64_text, zlib_closed,
    zlib_finish, zlib_takes, zlib_write_all, zlib_writer, zlib_written,
};

verus! {

/// The two quote protocols.
#[derive(Clone, Copy, Debug, PartialEq, Eq, Structural)]
pub enum QuoteKind {
    /// A quote of the TPM's own PCRs.
    Plain,
    /// A quote of a virtual TPM, countersigned by the hardware TPM.
    Deep,
}

/// How compressing ended.
pub enum Compressed {
    /// The finished zlib stream.
    Stream(Vec<u8>),
    /// The encoder refused the data.
    WriteFailed,
    /// The encoder took the data and could not close the stream.
    FinishFailed,
}

/// What stands in place of the encoded text when the data could not be
/// written into the encoder.
pub const ENCODE_FAILED: &'static str = "Encode Fail!";

/// The tag that opens the wire form of a quote of this kind.
pub open spec fn tag_of(kind: QuoteKind) -> char {
    match kind {
        QuoteKind::Plain => 'r',
        QuoteKind::Deep => 'd',
    }
}

/// The text that stands for a finished zlib stream: its base64 text, or
/// `"Encode Fail!"` where that text would be too long to hold.
pub open spec fn stream_text(stream: Seq<u8>) -> Seq<char> {
    if base64_fits(stream.len()) {
        base64_text(stream)
    } else {
        ENCODE_FAILED@
    }
}

/// The text that stands for an outcome of compressing: that of the stream,
/// `"Encode Fail!"` where writing failed, and nothing where closing the
/// stream failed.
pub open spec fn encoded_text(outcome: Compressed) -> Seq<char> {
    match outcome {
        Compressed::Stream(bytes) => stream_text(bytes@),
        Compressed::WriteFailed => ENCODE_FAILED@,
        Compressed::FinishFailed => Seq::<char>::empty(),
    }
}

/// How compressing `data` ends: whether the encoder takes the data, and
/// whether it can then close the stream.
pub open spec fn compresses_to(data: Seq<u8>, outcome: Compressed) -> bool {
    match outcome {
        Compressed::Stream(bytes) => zlib_takes(Seq::empty(), data) && zlib_closed(data) == Some(
            bytes@,
        ),
        Compressed::WriteFailed => !zlib_takes(Seq::empty(), data),
        Compressed::FinishFailed => zlib_takes(Seq::empty(), data) && zlib_closed(data) is None,
    }
}

/// The text that encoding `data` gives: `"Encode Fail!"` where the encoder
/// does not take the data, nothing where it cannot close the stream, and
/// else the text of the stream.
pub open spec fn compressed_text(data: Seq<u8>) -> Seq<char> {
    if !zlib_takes(Seq::empty(), data) {
        ENCODE_FAILED@
    } else {
        match zlib_closed(data) {
            Some(stream) => stream_text(stream),
            None => Seq::<char>::empty(),
        }
    }
}

/// The wire form of a quote of this kind with raw bytes `raw`: the kind's
/// tag, then the text that encoding the raw bytes gives.
pub open spec fn wire_text(kind: QuoteKind, raw: Seq<u8>) -> Seq<char> {
    seq![tag_of(kind)] + compressed_text(raw)
}

/// A character of a base64 text: a letter, a digit, `+`, `/` or `=`.
pub open spec fn is_base64_char(c: char) -> bool {
    ||| 'A' <= c && c <= 'Z'
    ||| 'a' <= c && c <= 'z'
    ||| '0' <= c && c <= '9'
    ||| c == '+'
    ||| c == '/'
    ||| c == '='
}

/// Compresses `data` into a zlib stream at the default level.
pub fn compress(data: &[u8]) -> (outcome: Compressed)
    ensures
        compresses_to(data@, outcome),
{
    let mut writer = zlib_writer();
    match zlib_write_all(&mut writer, data) {
        Ok(_) => {
            assert(zlib_written(writer) =~= data@);
            match zlib_finish(writer) {
                Ok(bytes) => Compressed::Stream(bytes),
                Err(_) => Compressed::FinishFailed,
            }
        },
        Err(_) => Compressed::WriteFailed,
    }
}

/// The text for an outcome of compressing.
pub fn encode_compressed(outcome: Compressed) -> (text: String)
    ensures
        text@ == encoded_text(outcome),
{
    match outcome {
        Compressed::Stream(bytes) => {
            if bytes.len() / 3 <= (usize::MAX - 4) / 4 {
                base64_encode(bytes.as_slice())
            } else {
                ENCODE_FAILED.to_owned()
            }
        },
        Compressed::WriteFailed => ENCODE_FAILED.to_owned(),
        Compressed::FinishFailed => String::new(),
    }
}

/// Compresses `data` and writes the stream in base64.
pub fn encode_bytes(data: &[u8]) -> (text: String)
    ensures
        text@ == compressed_text(data@),
{
    encode_compressed(compress(data))
}

/// Compresses the bytes of `data` and writes the stream in base64.
pub fn base64_zlib_encode(data: String) -> (text: String)
    ensures
        text@ == compressed_text(encode_utf8(data@)),
{
    encode_bytes(data.as_str().as_bytes())
}

/// The one-character string of a kind's tag.
pub fn tag_str(kind: QuoteKind) -> (tag: &'static str)
    ensures
        tag@ == seq![tag_of(kind)],
{
    proof {
        reveal_strlit("r");
        reveal_strlit("d");
    }
    let tag = match kind {
        QuoteKind::Plain => "r",
        QuoteKind::Deep => "d",
    };
    assert(tag@ =~= seq![tag_of(kind)]);
    tag
}

/// Puts a kind's tag in front of an encoded text.
pub fn tagged(kind: QuoteKind, encoded: &str) -> (text: String)
    ensures
        text@ == seq![tag_of(kind)] + encoded@,
{
    let mut text = String::new();
    text.append(tag_str(kind));
    text.append(encoded);
    assert(text@ =~= seq![tag_of(kind)] + encoded@);
    text
}

/// The wire form of a quote: the kind's tag, then the raw bytes compressed
/// and written in base64. Where compressing fails the tag is followed by a
/// mark of failure.
pub fn encode(kind: QuoteKind, raw: &[u8]) -> (text: String)
    ensures
        text@ == wire_text(kind, raw@),
{
    let encoded = encode_bytes(raw);
    tagged(kind, encoded.as_str())
}

/// The wire form opens with the tag of the quote's kind, whatever comes of
/// compressing: `r` for a plain quote, `d` for a deep one.
pub proof fn lemma_wire_text_opens_with_tag(kind: QuoteKind, raw: Seq<u8>)
    ensures
        wire_text(kind, raw).len() >= 1,
        wire_text(kind, raw)[0] == tag_of(kind),
        wire_text(QuoteKind::Plain, raw)[0] == 'r',
        wire_text(QuoteKind::Deep, raw)[0] == 'd',
        wire_text(kind, raw).skip(1) == compressed_text(raw),
{
    assert(wire_text(kind, raw).skip(1) =~= compressed_text(raw));
}

/// Where compressing succeeds, the wire form is the tag and the base64 text
/// of the zlib stream, and with the tag taken off it reads back as that
/// stream.
pub proof fn lemma_wire_text_of_stream(kind: QuoteKind, raw: Seq<u8>, stream: Seq<u8>)
    requires
        zlib_takes(Seq::empty(), raw),
        zlib_closed(raw) == Some(stream),
        base64_fits(stream.len()),
    ensures
        wire_text(kind, raw) == seq![tag_of(kind)] + base64_text(stream),
        base64_bytes(wire_text(kind, raw).skip(1)) == stream,
{
    lemma_base64_reads_back(stream);
    assert(wire_text(kind, raw).skip(1) =~= base64_text(stream));
}

/// The base64 text of a stream is made of groups of four base64
/// characters, and that of a stream that is not empty is no mark of failure.
pub proof fn lemma_stream_text_shape(stream: Seq<u8>)
    requires
        base64_fits(stream.len()),
    ensures
        stream_text(stream).len() == 4 * ((stream.len() + 2) / 3),
        stream_text(stream).len() % 4 == 0,
        forall|i: int|
            0 <= i < stream_text(stream).len() ==> is_base64_char(#[trigger] stream_text(stream)[i]),
        stream.len() > 0 ==> stream_text(stream).len() > 0 && stream_text(stream)
            != ENCODE_FAILED@,
{
    let text = stream_text(stream);
    reveal_strlit("ABCDEFGHIJKLMNOPQRSTUVWXYZabcdefghijklmnopqrstuvwxyz0123456789+/");
    reveal_strlit("Encode Fail!");
    let alphabet = base64_alphabet();
    assert forall|k: int| 0 <= k < 64 implies is_base64_char(#[trigger] alphabet[k]) by {
        lemma_alphabet_char(k);
    }
    assert forall|i: int| 0 <= i < text.len() implies is_base64_char(#[trigger] text[i]) by {
        assert(text[i] == base64_symbol(stream, i));
        let at = 3 * (i / 4);
        assert(0 <= at < stream.len());
    }
    if stream.len() > 0 && text.len() == 12 {
        assert(is_base64_char(text[6]));
        assert(ENCODE_FAILED@[6] == ' ');
    }
}

/// The value of a base64 symbol: its place in the alphabet.
pub open spec fn base64_value(c: char) -> int {
    if 'A' <= c && c <= 'Z' {
        c as int - 'A' as int
    } else if 'a' <= c && c <= 'z' {
        c as int - 'a' as int + 26
    } else if '0' <= c && c <= '9' {
        c as int - '0' as int + 52
    } else if c == '+' {
        62
    } else {
        63
    }
}

/// How many bytes a base64 text stands for: three for each group of four
/// symbols, less one for each `=` at the end.
pub open spec fn base64_len(text: Seq<char>) -> int {
    if text.len() < 4 {
        0
    } else {
        3 * (text.len() / 4) - (if text[text.len() - 1] == '=' {
            1int
        } else {
            0int
        }) - (if text[text.len() - 2] == '=' {
            1int
        } else {
            0int
        })
    }
}

/// Byte `j` of what a base64 text stands for, put together from the values
/// of the symbols of its group.
pub open spec fn base64_byte(text: Seq<char>, j: int) -> int {
    let at = 4 * (j / 3);
    let v0 = base64_value(text[at]);
    let v1 = base64_value(text[at + 1]);
    let v2 = base64_value(text[at + 2]);
    let v3 = base64_value(text[at + 3]);
    if j % 3 == 0 {
        v0 * 4 + v1 / 16
    } else if j % 3 == 1 {
        (v1 % 16) * 16 + v2 / 4
    } else {
        (v2 % 4) * 64 + v3
    }
}

/// The bytes that a base64 text stands for.
pub open spec fn base64_bytes(text: Seq<char>) -> Seq<u8> {
    Seq::new(base64_len(text) as nat, |j: int| base64_byte(text, j) as u8)
}

/// Reading a base64 text back gives the bytes it was written from.
pub proof fn lemma_base64_reads_back(data: Seq<u8>)
    ensures
        base64_bytes(base64_text(data)) == data,
{
    let text = base64_text(data);
    let n = data.len() as int;
    let len = text.len() as int;
    assert(len == 4 * ((n + 2) / 3));
    if n > 0 {
        let last = 3 * ((len - 1) / 4);
        assert(text[len - 1] == base64_symbol(data, len - 1));
        assert(text[len - 2] == base64_symbol(data, len - 2));
        assert((len - 1) / 4 == (len - 2) / 4);
        assert((len - 1) % 4 == 3 && (len - 2) % 4 == 2);
        assert(0 <= last < n);
        lemma_alphabet_value((data[last + 1] as int % 16) * 4 + (if last + 2 < n {
            data[last + 2] as int / 64
        } else {
            0
        }));
        lemma_alphabet_value(data[last + 2] as int % 64);
        assert(base64_len(text) == n);
    }
    assert(base64_len(text) == n);
    assert forall|j: int| 0 <= j < n implies base64_byte(text, j) == data[j] as int by {
        let at = 3 * (j / 3);
        let g = 4 * (j / 3);
        assert(0 <= g && g + 3 < len);
        assert(text[g] == base64_symbol(data, g));
        assert(text[g + 1] == base64_symbol(data, g + 1));
        assert(text[g + 2] == base64_symbol(data, g + 2));
        assert(text[g + 3] == base64_symbol(data, g + 3));
        assert(g / 4 == j / 3 && (g + 1) / 4 == j / 3 && (g + 2) / 4 == j / 3 && (g + 3) / 4 == j
            / 3);
        assert(g % 4 == 0 && (g + 1) % 4 == 1 && (g + 2) % 4 == 2 && (g + 3) % 4 == 3);
        let b0 = data[at] as int;
        let b1 = if at + 1 < n {
            data[at + 1] as int
        } else {
            0
        };
        let b2 = if at + 2 < n {
            data[at + 2] as int
        } else {
            0
        };
        lemma_alphabet_value(b0 / 4);
        lemma_alphabet_value((b0 % 4) * 16 + b1 / 16);
        lemma_alphabet_value((b1 % 16) * 4 + b2 / 64);
        lemma_alphabet_value(b2 % 64);
    }
    assert(base64_bytes(text) =~= data);
}

/// Each symbol of the alphabet has its place as its value, and none is `=`.
proof fn lemma_alphabet_value(k: int)
    requires
        0 <= k < 64,
    ensures
        base64_value(base64_alphabet()[k]) == k,
        base64_alphabet()[k] != '=',
{
    reveal_strlit("ABCDEFGHIJKLMNOPQRSTUVWXYZabcdefghijklmnopqrstuvwxyz0123456789+/");
    let a = base64_alphabet();
    if k < 16 {
        assert(a[0] == 'A' && a[1] == 'B' && a[2] == 'C' && a[3] == 'D' && a[4] == 'E' && a[5]
            == 'F' && a[6] == 'G' && a[7] == 'H' && a[8] == 'I' && a[9] == 'J' && a[10] == 'K'
            && a[11] == 'L' && a[12] == 'M' && a[13] == 'N' && a[14] == 'O' && a[15] == 'P');
    } else if k < 32 {
        assert(a[16] == 'Q' && a[17] == 'R' && a[18] == 'S' && a[19] == 'T' && a[20] == 'U'
            && a[21] == 'V' && a[22] == 'W' && a[23] == 'X' && a[24] == 'Y' && a[25] == 'Z'
            && a[26] == 'a' && a[27] == 'b' && a[28] == 'c' && a[29] == 'd' && a[30] == 'e'
            && a[31] == 'f');
    } else if k < 48 {
        assert(a[32] == 'g' && a[33] == 'h' && a[34] == 'i' && a[35] == 'j' && a[36] == 'k'
            && a[37] == 'l' && a[38] == 'm' && a[39] == 'n' && a[40] == 'o' && a[41] == 'p'
            && a[42] == 'q' && a[43] == 'r' && a[44] == 's' && a[45] == 't' && a[46] == 'u'
            && a[47] == 'v');
    } else {
        assert(a[48] == 'w' && a[49] == 'x' && a[50] == 'y' && a[51] == 'z' && a[52] == '0'
            && a[53] == '1' && a[54] == '2' && a[55] == '3' && a[56] == '4' && a[57] == '5'
            && a[58] == '6' && a[59] == '7' && a[60] == '8' && a[61] == '9' && a[62] == '+'
            && a[63] == '/');
    }
}

/// Every symbol of the alphabet is a base64 character.
proof fn lemma_alphabet_char(k: int)
    requires
        0 <= k < 64,
    ensures
        is_base64_char(base64_alphabet()[k]),
{
    reveal_strlit("ABCDEFGHIJKLMNOPQRSTUVWXYZabcdefghijklmnopqrstuvwxyz0123456789+/");
    let a = base64_alphabet();
    if k < 16 {
        assert(is_base64_char(a[0]) && is_base64_char(a[1]) && is_base64_char(a[2])
            && is_base64_char(a[3]) && is_base64_char(a[4]) && is_base64_char(a[5])
            && is_base64_char(a[6]) && is_base64_char(a[7]) && is_base64_char(a[8])
            && is_base64_char(a[9]) && is_base64_char(a[10]) && is_base64_char(a[11])
            && is_base64_char(a[12]) && is_base64_char(a[13]) && is_base64_char(a[14])
            && is_base64_char(a[15]));
    } else if k < 32 {
        assert(is_base64_char(a[16]) && is_base64_char(a[17]) && is_base64_char(a[18])
            && is_base64_char(a[19]) && is_base64_char(a[20]) && is_base64_char(a[21])
            && is_base64_char(a[22]) && is_base64_char(a[23]) && is_base64_char(a[24])
            && is_base64_char(a[25]) && is_base64_char(a[26]) && is_base64_char(a[27])
            && is_base64_char(a[28]) && is_base64_char(a[29]) && is_base64_char(a[30])
            && is_base64_char(a[31]));
    } else if k < 48 {
        assert(is_base64_char(a[32]) && is_base64_char(a[33]) && is_base64_char(a[34])
            && is_base64_char(a[35]) && is_base64_char(a[36]) && is_base64_char(a[37])
            && is_base64_char(a[38]) && is_base64_char(a[39]) && is_base64_char(a[40])
            && is_base64_char(a[41]) && is_base64_char(a[42]) && is_base64_char(a[43])
            && is_base64_char(a[44]) && is_base64_char(a[45]) && is_base64_char(a[46])
            && is_base64_char(a[47]));
    } else {
        assert(is_base64_char(a[48]) && is_base64_char(a[49]) && is_base64_char(a[50])
            && is_base64_char(a[51]) && is_base64_char(a[52]) && is_base64_char(a[53])
            && is_base64_char(a[54]) && is_base64_char(a[55]) && is_base64_char(a[56])
            && is_base64_char(a[57]) && is_base64_char(a[58]) && is_base64_char(a[59])
            && is_base64_char(a[60]) && is_base64_char(a[61]) && is_base64_char(a[62])
            && is_base64_char(a[63]));
    }
}

} // verus!
