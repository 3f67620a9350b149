use vstd::prelude::*;
use vstd::string::*;

use base64::engine::general_purpose::{STANDARD, URL_SAFE_NO_PAD};
use base64::Engine;

use crate::mixer::append_bytes;

verus! {

/// The ways the generated bytes can be written out.
#[derive(Debug, Clone, Copy, PartialEq, Eq, Structural)]
pub enum OutputFormat {
    /// Hexadecimal, lower case.
    Hex,
    /// The bytes as they are.
    Raw,
    /// Base64, standard alphabet with padding.
    Base64,
    /// Base64, URL-safe alphabet without padding.
    Base64url,
    /// Classic uuencode.
    Uuencode,
    /// Printable ASCII characters.
    Text,
    /// Three-digit octal groups separated by spaces.
    Octal,
    /// Eight-digit binary groups separated by spaces.
    Binary,
    /// Hexadecimal, upper case.
    HexUpper,
}

/// The ASCII symbol for a six-bit value (below 64): `A`-`Z`, `a`-`z`,
/// `0`-`9`, then `+` and `/` in the standard alphabet or `-` and `_` in the
/// URL-safe one.
pub open spec fn b64_symbol(v: u8, url: bool) -> u8 {
    if v < 26 {
        (65 + v) as u8
    } else if v < 52 {
        (97 + v - 26) as u8
    } else if v < 62 {
        (48 + v - 52) as u8
    } else if v == 62 {
        if url {
            45
        } else {
            43
        }
    } else {
        if url {
            95
        } else {
            47
        }
    }
}

/// The padding character `=`.
pub open spec fn b64_pad() -> u8 {
    61
}

/// The four symbols of three bytes.
pub open spec fn b64_quad(b0: u8, b1: u8, b2: u8, url: bool) -> Seq<u8> {
    seq![
        b64_symbol(b0 >> 2u8, url),
        b64_symbol(((b0 & 3u8) << 4u8) | (b1 >> 4u8), url),
        b64_symbol(((b1 & 0x0fu8) << 2u8) | (b2 >> 6u8), url),
        b64_symbol(b2 & 0x3fu8, url),
    ]
}

/// Base64 of `b` from group `g` on: four symbols per three bytes; a final
/// group of one or two bytes gives two or three symbols, followed by `==`
/// or `=` when padding.
pub open spec fn b64_groups_from(b: Seq<u8>, g: int, pad: bool, url: bool) -> Seq<u8>
    decreases b.len() - g,
{
    if g < 0 || 3 * g >= b.len() {
        Seq::empty()
    } else {
        let q = b64_quad(padded_at(b, 3 * g), padded_at(b, 3 * g + 1), padded_at(b, 3 * g + 2), url);
        let rem = b.len() - 3 * g;
        let piece = if rem >= 3 {
            q
        } else if rem == 2 {
            q.subrange(0, 3) + (if pad { seq![b64_pad()] } else { Seq::empty() })
        } else {
            q.subrange(0, 2) + (if pad { seq![b64_pad(), b64_pad()] } else { Seq::empty() })
        };
        piece + b64_groups_from(b, g + 1, pad, url)
    }
}

/// Standard base64 (RFC 4648) with padding, as ASCII bytes.
pub open spec fn base64_standard_text(b: Seq<u8>) -> Seq<u8> {
    b64_groups_from(b, 0, true, false)
}

/// URL-safe base64 (RFC 4648, section 5) without padding, as ASCII bytes.
pub open spec fn base64_url_text(b: Seq<u8>) -> Seq<u8> {
    b64_groups_from(b, 0, false, true)
}

/// Relies on `base64::engine::general_purpose::STANDARD.encode`: RFC 4648
/// base64 with the standard alphabet and `=` padding. The crate panics when
/// the length computation overflows, which the bound excludes.
#[verifier::external_body]
fn base64_standard(b: &[u8]) -> (r: Vec<u8>)
    requires
        b@.len() <= usize::MAX / 2,
    ensures
        r@ == base64_standard_text(b@),
{
    STANDARD.encode(b).into_bytes()
}

/// Relies on `base64::engine::general_purpose::URL_SAFE_NO_PAD.encode`:
/// RFC 4648 base64 with the URL-safe alphabet and no padding.
#[verifier::external_body]
fn base64_url(b: &[u8]) -> (r: Vec<u8>)
    requires
        b@.len() <= usize::MAX / 2,
    ensures
        r@ == base64_url_text(b@),
{
    URL_SAFE_NO_PAD.encode(b).into_bytes()
}

/// The pieces of `bytes` mapped by `f`, concatenated.
pub open spec fn flat_map(bytes: Seq<u8>, f: spec_fn(u8) -> Seq<u8>) -> Seq<u8>
    decreases bytes.len(),
{
    if bytes.len() == 0 {
        Seq::empty()
    } else {
        flat_map(bytes.drop_last(), f) + f(bytes.last())
    }
}

/// The pieces of `bytes` mapped by `f`, separated by single spaces.
pub open spec fn joined(bytes: Seq<u8>, f: spec_fn(u8) -> Seq<u8>) -> Seq<u8>
    decreases bytes.len(),
{
    if bytes.len() == 0 {
        Seq::empty()
    } else if bytes.len() == 1 {
        f(bytes[0])
    } else {
        joined(bytes.drop_last(), f) + seq![0x20u8] + f(bytes.last())
    }
}

/// ASCII digit `n` (below 16) in hexadecimal.
pub open spec fn hex_digit(n: u8, upper: bool) -> u8 {
    if n < 10 {
        (0x30 + n) as u8
    } else if upper {
        (0x41 + n - 10) as u8
    } else {
        (0x61 + n - 10) as u8
    }
}

/// Two hexadecimal digits of a byte, high nibble first.
pub open spec fn hex_pair(b: u8, upper: bool) -> Seq<u8> {
    seq![hex_digit(b / 16, upper), hex_digit(b % 16, upper)]
}

/// Three octal digits of a byte.
pub open spec fn octal_triple(b: u8) -> Seq<u8> {
    seq![(0x30 + b / 64) as u8, (0x30 + (b / 8) % 8) as u8, (0x30 + b % 8) as u8]
}

/// Eight binary digits of a byte, most significant first.
pub open spec fn binary_octet(b: u8) -> Seq<u8> {
    Seq::new(8, |i: int| (0x30u8 + ((b >> ((7 - i) as u8)) & 1u8)) as u8)
}

/// A printable ASCII character from `!` to `~` for a byte: `(b mod 94) + 33`.
pub open spec fn printable(b: u8) -> u8 {
    ((b % 94) + 33) as u8
}

/// A line feed.
pub open spec fn newline() -> Seq<u8> {
    seq![0x0au8]
}

/// Byte `k` of `chunk`, or zero past its end.
pub open spec fn padded_at(chunk: Seq<u8>, k: int) -> u8 {
    if k < chunk.len() {
        chunk[k]
    } else {
        0
    }
}

/// The four characters that encode three bytes in uuencode.
pub open spec fn uu_quad(b0: u8, b1: u8, b2: u8) -> Seq<u8> {
    seq![
        ((b0 >> 2u8) + 32) as u8,
        ((((b0 & 3u8) << 4u8) | (b1 >> 4u8)) + 32) as u8,
        ((((b1 & 0x0fu8) << 2u8) | (b2 >> 6u8)) + 32) as u8,
        ((b2 & 0x3fu8) + 32) as u8,
    ]
}

/// The groups of three bytes of `chunk` from group `g` on, encoded; the
/// last group is padded with zeros.
pub open spec fn uu_groups_from(chunk: Seq<u8>, g: int) -> Seq<u8>
    decreases chunk.len() - g,
{
    if g < 0 || 3 * g >= chunk.len() {
        Seq::empty()
    } else {
        uu_quad(padded_at(chunk, 3 * g), padded_at(chunk, 3 * g + 1), padded_at(chunk, 3 * g + 2))
            + uu_groups_from(chunk, g + 1)
    }
}

/// One uuencode line: the length character, the encoded groups, a line feed.
pub open spec fn uu_line(chunk: Seq<u8>) -> Seq<u8> {
    seq![(chunk.len() + 32) as u8] + uu_groups_from(chunk, 0) + newline()
}

/// Where the line that starts at `start` ends: 45 bytes on, or the end.
pub open spec fn uu_line_end(len: int, start: int) -> int {
    if len - start <= 45 {
        len
    } else {
        start + 45
    }
}

/// The uuencode lines of `bytes` from offset `start` on.
pub open spec fn uu_lines_from(bytes: Seq<u8>, start: int) -> Seq<u8>
    decreases bytes.len() - start,
{
    if start < 0 || start >= bytes.len() {
        Seq::empty()
    } else {
        let end = uu_line_end(bytes.len() as int, start);
        uu_line(bytes.subrange(start, end)) + uu_lines_from(bytes, end)
    }
}

/// "begin 644 data" and a line feed.
pub open spec fn uu_header() -> Seq<u8> {
    seq![0x62u8, 0x65, 0x67, 0x69, 0x6e, 0x20, 0x36, 0x34, 0x34, 0x20, 0x64, 0x61, 0x74, 0x61, 0x0a]
}

/// A backtick line, then "end" and a line feed.
pub open spec fn uu_trailer() -> Seq<u8> {
    seq![0x60u8, 0x0a, 0x65, 0x6e, 0x64, 0x0a]
}

/// The complete output for `bytes` in `format`.
pub open spec fn formatted(bytes: Seq<u8>, format: OutputFormat) -> Seq<u8> {
    match format {
        OutputFormat::Hex => flat_map(bytes, |b: u8| hex_pair(b, false)) + newline(),
        OutputFormat::HexUpper => flat_map(bytes, |b: u8| hex_pair(b, true)) + newline(),
        OutputFormat::Raw => bytes,
        OutputFormat::Base64 => base64_standard_text(bytes) + newline(),
        OutputFormat::Base64url => base64_url_text(bytes) + newline(),
        OutputFormat::Uuencode => uu_header() + uu_lines_from(bytes, 0) + uu_trailer(),
        OutputFormat::Text => flat_map(bytes, |b: u8| seq![printable(b)]) + newline(),
        OutputFormat::Octal => joined(bytes, |b: u8| octal_triple(b)) + newline(),
        OutputFormat::Binary => joined(bytes, |b: u8| binary_octet(b)) + newline(),
    }
}

fn hex_digit_exec(n: u8, upper: bool) -> (r: u8)
    requires
        n < 16,
    ensures
        r == hex_digit(n, upper),
{
    if n < 10 {
        0x30 + n
    } else if upper {
        0x41 + n - 10
    } else {
        0x61 + n - 10
    }
}

fn binary_digits(out: &mut Vec<u8>, b: u8)
    ensures
        final(out)@ == old(out)@ + binary_octet(b),
{
    let ghost start = old(out)@;
    let mut i: usize = 0;
    while i < 8
        invariant
            i <= 8,
            out@ == start + binary_octet(b).subrange(0, i as int),
        decreases 8 - i,
    {
        let bit = (b >> ((7 - i) as u8)) & 1u8;
        assert(bit <= 1) by (bit_vector)
            requires
                bit == (b >> ((7 - i) as u8)) & 1u8,
        ;
        out.push(0x30 + bit);
        i += 1;
        assert(out@ =~= start + binary_octet(b).subrange(0, i as int));
    }
    assert(binary_octet(b).subrange(0, 8) =~= binary_octet(b));
}

/// Appends the text for one byte in a per-byte format.
fn push_piece(out: &mut Vec<u8>, b: u8, format: OutputFormat)
    ensures
        format == OutputFormat::Hex ==> final(out)@ == old(out)@ + hex_pair(b, false),
        format == OutputFormat::HexUpper ==> final(out)@ == old(out)@ + hex_pair(b, true),
        format == OutputFormat::Text ==> final(out)@ == old(out)@ + seq![printable(b)],
        format == OutputFormat::Octal ==> final(out)@ == old(out)@ + octal_triple(b),
        format == OutputFormat::Binary ==> final(out)@ == old(out)@ + binary_octet(b),
{
    match format {
        OutputFormat::Hex | OutputFormat::HexUpper => {
            let upper = format == OutputFormat::HexUpper;
            out.push(hex_digit_exec(b / 16, upper));
            out.push(hex_digit_exec(b % 16, upper));
            assert(final(out)@ =~= old(out)@ + hex_pair(b, upper));
        },
        OutputFormat::Text => {
            out.push((b % 94) + 33);
            assert(final(out)@ =~= old(out)@ + seq![printable(b)]);
        },
        OutputFormat::Octal => {
            out.push(0x30 + b / 64);
            out.push(0x30 + (b / 8) % 8);
            out.push(0x30 + b % 8);
            assert(final(out)@ =~= old(out)@ + octal_triple(b));
        },
        OutputFormat::Binary => {
            binary_digits(out, b);
        },
        _ => {},
    }
}

/// The per-byte piece of a per-byte format.
pub open spec fn piece_fn(format: OutputFormat) -> spec_fn(u8) -> Seq<u8> {
    match format {
        OutputFormat::Hex => |b: u8| hex_pair(b, false),
        OutputFormat::HexUpper => |b: u8| hex_pair(b, true),
        OutputFormat::Text => |b: u8| seq![printable(b)],
        OutputFormat::Octal => |b: u8| octal_triple(b),
        _ => |b: u8| binary_octet(b),
    }
}

/// A format that writes one piece per byte.
pub open spec fn is_piecewise(format: OutputFormat) -> bool {
    format == OutputFormat::Hex || format == OutputFormat::HexUpper || format == OutputFormat::Text
        || format == OutputFormat::Octal || format == OutputFormat::Binary
}

fn push_pieces(out: &mut Vec<u8>, bytes: &[u8], format: OutputFormat, separated: bool)
    requires
        is_piecewise(format),
    ensures
        !separated ==> final(out)@ == old(out)@ + flat_map(bytes@, piece_fn(format)),
        separated ==> final(out)@ == old(out)@ + joined(bytes@, piece_fn(format)),
{
    let ghost start = old(out)@;
    let ghost f = piece_fn(format);
    let mut i: usize = 0;
    while i < bytes.len()
        invariant
            is_piecewise(format),
            f == piece_fn(format),
            i <= bytes@.len(),
            !separated ==> out@ == start + flat_map(bytes@.subrange(0, i as int), f),
            separated ==> out@ == start + joined(bytes@.subrange(0, i as int), f),
        decreases bytes@.len() - i,
    {
        let ghost pre = bytes@.subrange(0, i as int);
        let ghost next = bytes@.subrange(0, i + 1);
        assert(next.drop_last() =~= pre);
        assert(next.last() == bytes@[i as int]);
        if separated && i > 0 {
            out.push(0x20);
        }
        let ghost mid = out@;
        push_piece(out, bytes[i], format);
        assert(out@ == mid + f(bytes@[i as int]));
        i += 1;
        proof {
            if separated {
                if i == 1 {
                    assert(next.len() == 1);
                    assert(joined(pre, f) =~= Seq::<u8>::empty());
                    assert(out@ =~= start + joined(next, f));
                } else {
                    assert(out@ =~= start + joined(next, f));
                }
            } else {
                assert(out@ =~= start + flat_map(next, f));
            }
        }
    }
    assert(bytes@.subrange(0, bytes@.len() as int) =~= bytes@);
}

proof fn lemma_groups_step(chunk: Seq<u8>, g: int)
    requires
        0 <= g,
        3 * g < chunk.len(),
    ensures
        uu_groups_from(chunk, g) == uu_quad(
            padded_at(chunk, 3 * g),
            padded_at(chunk, 3 * g + 1),
            padded_at(chunk, 3 * g + 2),
        ) + uu_groups_from(chunk, g + 1),
{
}

fn push_uu_line(out: &mut Vec<u8>, bytes: &[u8], start: usize, end: usize)
    requires
        start < end <= bytes@.len(),
        end - start <= 45,
    ensures
        final(out)@ == old(out)@ + uu_line(bytes@.subrange(start as int, end as int)),
{
    let ghost chunk = bytes@.subrange(start as int, end as int);
    let ghost head = old(out)@;
    let len = end - start;
    out.push((len as u8) + 32);
    let mut g: usize = 0;
    while 3 * g < len
        invariant
            start < end <= bytes@.len(),
            len == end - start <= 45,
            chunk == bytes@.subrange(start as int, end as int),
            g <= 15,
            g <= len,
            out@ + uu_groups_from(chunk, g as int) == head + seq![(chunk.len() + 32) as u8]
                + uu_groups_from(chunk, 0),
        decreases len - g,
    {
        let k = 3 * g;
        let b0 = bytes[start + k];
        let b1 = if k + 1 < len {
            bytes[start + k + 1]
        } else {
            0
        };
        let b2 = if k + 2 < len {
            bytes[start + k + 2]
        } else {
            0
        };
        assert(b0 == padded_at(chunk, 3 * g as int));
        assert(b1 == padded_at(chunk, 3 * g + 1));
        assert(b2 == padded_at(chunk, 3 * g + 2));
        let ghost before = out@;
        assert((b0 >> 2u8) < 64 && (((b0 & 3u8) << 4u8) | (b1 >> 4u8)) < 64 && (((b1 & 0x0fu8)
            << 2u8) | (b2 >> 6u8)) < 64 && (b2 & 0x3fu8) < 64) by (bit_vector);
        out.push((b0 >> 2) + 32);
        out.push((((b0 & 3) << 4) | (b1 >> 4)) + 32);
        out.push((((b1 & 0x0f) << 2) | (b2 >> 6)) + 32);
        out.push((b2 & 0x3f) + 32);
        assert(out@ =~= before + uu_quad(b0, b1, b2));
        proof {
            lemma_groups_step(chunk, g as int);
        }
        g += 1;
        assert(out@ + uu_groups_from(chunk, g as int) =~= head + seq![(chunk.len() + 32) as u8]
            + uu_groups_from(chunk, 0));
    }
    assert(uu_groups_from(chunk, g as int) =~= Seq::<u8>::empty());
    out.push(0x0a);
    assert(out@ =~= head + uu_line(chunk));
}

fn push_uuencode(out: &mut Vec<u8>, bytes: &[u8])
    ensures
        final(out)@ == old(out)@ + uu_header() + uu_lines_from(bytes@, 0) + uu_trailer(),
{
    let ghost head = old(out)@ + uu_header();
    append_bytes(out, &[0x62, 0x65, 0x67, 0x69, 0x6e, 0x20, 0x36, 0x34, 0x34, 0x20, 0x64, 0x61, 0x74, 0x61, 0x0a]);
    assert(out@ =~= head);
    let n = bytes.len();
    let mut start: usize = 0;
    while start < n
        invariant
            n == bytes@.len(),
            start <= n,
            out@ + uu_lines_from(bytes@, start as int) == head + uu_lines_from(bytes@, 0),
        decreases n - start,
    {
        let end = if n - start <= 45 {
            n
        } else {
            start + 45
        };
        let ghost before = out@;
        push_uu_line(out, bytes, start, end);
        assert(uu_lines_from(bytes@, start as int) == uu_line(bytes@.subrange(start as int, end as int))
            + uu_lines_from(bytes@, end as int));
        start = end;
        assert(out@ + uu_lines_from(bytes@, start as int) =~= head + uu_lines_from(bytes@, 0));
    }
    assert(uu_lines_from(bytes@, start as int) =~= Seq::<u8>::empty());
    let ghost mid = out@;
    append_bytes(out, &[0x60, 0x0a, 0x65, 0x6e, 0x64, 0x0a]);
    assert(out@ =~= old(out)@ + uu_header() + uu_lines_from(bytes@, 0) + uu_trailer());
}

/// The bytes to write for `bytes` in `format`: hex (lower or upper case,
/// then a line feed), raw bytes, base64 (standard with padding, or URL-safe
/// without; then a line feed), uuencode, printable text, or space-separated
/// octal or binary groups (each then a line feed).
pub fn format_output(bytes: &[u8], format: OutputFormat) -> (r: Vec<u8>)
    requires
        bytes@.len() <= usize::MAX / 2,
    ensures
        r@ == formatted(bytes@, format),
{
    let mut out: Vec<u8> = Vec::new();
    match format {
        OutputFormat::Raw => {
            append_bytes(&mut out, bytes);
            assert(out@ =~= bytes@);
        },
        OutputFormat::Base64 | OutputFormat::Base64url => {
            let text = if format == OutputFormat::Base64 {
                base64_standard(bytes)
            } else {
                base64_url(bytes)
            };
            append_bytes(&mut out, text.as_slice());
            out.push(0x0a);
            assert(out@ =~= formatted(bytes@, format));
        },
        OutputFormat::Uuencode => {
            push_uuencode(&mut out, bytes);
            assert(out@ =~= formatted(bytes@, format));
        },
        OutputFormat::Octal | OutputFormat::Binary => {
            push_pieces(&mut out, bytes, format, true);
            out.push(0x0a);
            assert(out@ =~= formatted(bytes@, format));
        },
        _ => {
            push_pieces(&mut out, bytes, format, false);
            out.push(0x0a);
            assert(out@ =~= formatted(bytes@, format));
        },
    }
    out
}

/// The value of an ASCII hexadecimal digit of either case (0 for any other byte).
pub open spec fn hex_value(c: u8) -> int {
    if 0x30 <= c <= 0x39 {
        c - 0x30
    } else if 0x61 <= c <= 0x66 {
        c - 0x61 + 10
    } else if 0x41 <= c <= 0x46 {
        c - 0x41 + 10
    } else {
        0
    }
}

/// Standard hexadecimal decoding: each pair of digits, high digit first,
/// gives one byte.
pub open spec fn hex_decode(text: Seq<u8>) -> Seq<u8> {
    Seq::new(text.len() / 2, |i: int| (hex_value(text[2 * i]) * 16 + hex_value(text[2 * i + 1])) as u8)
}

proof fn lemma_flat_map_pairs(bytes: Seq<u8>, f: spec_fn(u8) -> Seq<u8>)
    requires
        forall|b: u8| #[trigger] f(b).len() == 2,
    ensures
        flat_map(bytes, f).len() == 2 * bytes.len(),
        forall|i: int|
            0 <= i < bytes.len() ==> flat_map(bytes, f)[2 * i] == #[trigger] f(bytes[i])[0]
                && flat_map(bytes, f)[2 * i + 1] == f(bytes[i])[1],
    decreases bytes.len(),
{
    if bytes.len() > 0 {
        let pre = bytes.drop_last();
        lemma_flat_map_pairs(pre, f);
        assert forall|i: int| 0 <= i < bytes.len() implies flat_map(bytes, f)[2 * i] == #[trigger] f(bytes[i])[0]
            && flat_map(bytes, f)[2 * i + 1] == f(bytes[i])[1] by {
            let whole = flat_map(bytes, f);
            assert(whole == flat_map(pre, f) + f(bytes.last()));
            if i < pre.len() {
                assert(pre[i] == bytes[i]);
                assert(whole[2 * i] == flat_map(pre, f)[2 * i]);
                assert(whole[2 * i + 1] == flat_map(pre, f)[2 * i + 1]);
            } else {
                assert(bytes[i] == bytes.last());
                assert(whole[2 * i] == f(bytes.last())[0]);
                assert(whole[2 * i + 1] == f(bytes.last())[1]);
            }
        }
    }
}

/// Hexadecimal output decodes back to the bytes it was made from, in either
/// letter case, once its trailing line feed is removed.
pub proof fn lemma_hex_round_trip(bytes: Seq<u8>, upper: bool)
    ensures
        hex_decode(formatted(bytes, if upper { OutputFormat::HexUpper } else { OutputFormat::Hex }).drop_last())
            == bytes,
{
    let fmt = if upper { OutputFormat::HexUpper } else { OutputFormat::Hex };
    let f = |b: u8| hex_pair(b, upper);
    let body = flat_map(bytes, f);
    assert(formatted(bytes, fmt).drop_last() =~= body) by {
        if upper {
            assert(formatted(bytes, fmt) == flat_map(bytes, |b: u8| hex_pair(b, true)) + newline());
            assert((|b: u8| hex_pair(b, true)) =~= f);
        } else {
            assert(formatted(bytes, fmt) == flat_map(bytes, |b: u8| hex_pair(b, false)) + newline());
            assert((|b: u8| hex_pair(b, false)) =~= f);
        }
    }
    lemma_flat_map_pairs(bytes, f);
    assert forall|i: int| 0 <= i < bytes.len() implies #[trigger] hex_decode(body)[i] == bytes[i] by {
        let b = bytes[i];
        assert(f(b)[0] == hex_digit(b / 16, upper));
        assert(f(b)[1] == hex_digit(b % 16, upper));
        assert(hex_value(hex_digit(b / 16, upper)) == b / 16);
        assert(hex_value(hex_digit(b % 16, upper)) == b % 16);
    }
    assert(hex_decode(body) =~= bytes);
}

/// The six-bit value of a uuencode character (the backtick stands for 0).
pub open spec fn uu_value(c: u8) -> u8 {
    ((c as int - 32) % 64) as u8
}

/// Three bytes from four uuencode characters.
pub open spec fn uu_unquad(c0: u8, c1: u8, c2: u8, c3: u8) -> Seq<u8> {
    let (v0, v1, v2, v3) = (uu_value(c0), uu_value(c1), uu_value(c2), uu_value(c3));
    seq![(v0 << 2u8) | (v1 >> 4u8), ((v1 & 0x0fu8) << 4u8) | (v2 >> 2u8), ((v2 & 3u8) << 6u8) | v3]
}

/// `g` groups decoded from the characters at `pos` on.
pub open spec fn uu_decode_groups(text: Seq<u8>, pos: int, g: nat) -> Seq<u8>
    decreases g,
{
    if g == 0 {
        Seq::empty()
    } else {
        uu_unquad(text[pos], text[pos + 1], text[pos + 2], text[pos + 3]) + uu_decode_groups(
            text,
            pos + 4,
            (g - 1) as nat,
        )
    }
}

/// Standard uudecoding of the lines from `pos` on: each line gives as many
/// bytes as its length character says; a line of length 0 ends the data.
pub open spec fn uu_decode_lines(text: Seq<u8>, pos: int) -> Seq<u8>
    decreases text.len() - pos,
{
    if pos < 0 || pos >= text.len() {
        Seq::empty()
    } else {
        let n = uu_value(text[pos]) as nat;
        let g = (n + 2) / 3;
        let next = pos + 1 + 4 * g + 1;
        if n == 0 {
            Seq::empty()
        } else if next > text.len() {
            uu_decode_groups(text, pos + 1, g).subrange(0, n as int)
        } else {
            uu_decode_groups(text, pos + 1, g).subrange(0, n as int) + uu_decode_lines(text, next)
        }
    }
}

/// Uudecoding of a whole text: the lines after the 15-byte header line.
pub open spec fn uudecode(text: Seq<u8>) -> Seq<u8> {
    uu_decode_lines(text, 15)
}

proof fn lemma_quad_round_trip(b0: u8, b1: u8, b2: u8)
    ensures
        ({
            let q = uu_quad(b0, b1, b2);
            uu_unquad(q[0], q[1], q[2], q[3]) == seq![b0, b1, b2]
        }),
{
    let q = uu_quad(b0, b1, b2);
    let c0 = ((b0 >> 2u8) + 32) as u8;
    let c1 = ((((b0 & 3u8) << 4u8) | (b1 >> 4u8)) + 32) as u8;
    let c2 = ((((b1 & 0x0fu8) << 2u8) | (b2 >> 6u8)) + 32) as u8;
    let c3 = ((b2 & 0x3fu8) + 32) as u8;
    assert((b0 >> 2u8) < 64 && (((b0 & 3u8) << 4u8) | (b1 >> 4u8)) < 64 && (((b1 & 0x0fu8) << 2u8)
        | (b2 >> 6u8)) < 64 && (b2 & 0x3fu8) < 64) by (bit_vector);
    let v0 = b0 >> 2u8;
    let v1 = ((b0 & 3u8) << 4u8) | (b1 >> 4u8);
    let v2 = ((b1 & 0x0fu8) << 2u8) | (b2 >> 6u8);
    let v3 = b2 & 0x3fu8;
    assert(uu_value(c0) == v0 && uu_value(c1) == v1 && uu_value(c2) == v2 && uu_value(c3) == v3);
    assert(((v0 << 2u8) | (v1 >> 4u8)) == b0 && (((v1 & 0x0fu8) << 4u8) | (v2 >> 2u8)) == b1 && (((
    v2 & 3u8) << 6u8) | v3) == b2) by (bit_vector)
        requires
            v0 == b0 >> 2u8,
            v1 == ((b0 & 3u8) << 4u8) | (b1 >> 4u8),
            v2 == ((b1 & 0x0fu8) << 2u8) | (b2 >> 6u8),
            v3 == b2 & 0x3fu8,
    ;
    assert(uu_unquad(q[0], q[1], q[2], q[3]) =~= seq![b0, b1, b2]);
}

/// Number of three-byte groups in `len` bytes.
pub open spec fn group_count(len: nat) -> int {
    (len as int + 2) / 3
}

/// `chunk` padded with zeros to `n` bytes.
pub open spec fn zero_padded(chunk: Seq<u8>, n: int) -> Seq<u8> {
    Seq::new(n as nat, |k: int| padded_at(chunk, k))
}

proof fn lemma_groups_decode(chunk: Seq<u8>, g: int, text: Seq<u8>, pos: int)
    requires
        0 <= g,
        3 * g <= chunk.len() + 2,
        0 <= pos,
        pos + uu_groups_from(chunk, g).len() <= text.len(),
        text.subrange(pos, pos + uu_groups_from(chunk, g).len()) == uu_groups_from(chunk, g),
    ensures
        uu_groups_from(chunk, g).len() == 4 * (group_count(chunk.len()) - g),
        uu_decode_groups(text, pos, (group_count(chunk.len()) - g) as nat) == zero_padded(
            chunk,
            3 * (group_count(chunk.len())),
        ).subrange(3 * g, 3 * (group_count(chunk.len()))),
    decreases chunk.len() - g,
{
    let total: int = group_count(chunk.len());
    if 3 * g >= chunk.len() {
        assert(g == total);
        assert(zero_padded(chunk, 3 * total).subrange(3 * g, 3 * total) =~= Seq::<u8>::empty());
    } else {
        let q = uu_quad(padded_at(chunk, 3 * g), padded_at(chunk, 3 * g + 1), padded_at(chunk, 3 * g + 2));
        let rest = uu_groups_from(chunk, g + 1);
        assert(uu_groups_from(chunk, g) == q + rest);
        assert(text.subrange(pos + 4, pos + 4 + rest.len()) =~= rest) by {
            assert forall|k: int| 0 <= k < rest.len() implies text.subrange(pos + 4, pos + 4 + rest.len())[k] == rest[k] by {
                assert(text.subrange(pos, pos + uu_groups_from(chunk, g).len())[4 + k] == (q + rest)[4 + k]);
            }
        }
        lemma_groups_decode(chunk, g + 1, text, pos + 4);
        assert(text[pos] == q[0] && text[pos + 1] == q[1] && text[pos + 2] == q[2] && text[pos + 3] == q[3]) by {
            assert(text.subrange(pos, pos + uu_groups_from(chunk, g).len())[0] == q[0]);
            assert(text.subrange(pos, pos + uu_groups_from(chunk, g).len())[1] == q[1]);
            assert(text.subrange(pos, pos + uu_groups_from(chunk, g).len())[2] == q[2]);
            assert(text.subrange(pos, pos + uu_groups_from(chunk, g).len())[3] == q[3]);
        }
        lemma_quad_round_trip(padded_at(chunk, 3 * g), padded_at(chunk, 3 * g + 1), padded_at(chunk, 3 * g + 2));
        assert(uu_decode_groups(text, pos, (total - g) as nat) =~= zero_padded(chunk, 3 * total).subrange(
            3 * g,
            3 * total,
        ));
    }
}

proof fn lemma_lines_decode(bytes: Seq<u8>, start: int, prefix: Seq<u8>)
    requires
        0 <= start <= bytes.len(),
    ensures
        uu_decode_lines(prefix + uu_lines_from(bytes, start) + uu_trailer(), prefix.len() as int)
            == bytes.subrange(start, bytes.len() as int),
    decreases bytes.len() - start,
{
    let text = prefix + uu_lines_from(bytes, start) + uu_trailer();
    let pos = prefix.len() as int;
    if start == bytes.len() {
        assert(uu_lines_from(bytes, start) =~= Seq::<u8>::empty());
        assert(text[pos] == 0x60u8);
        assert(uu_value(0x60u8) == 0);
        assert(bytes.subrange(start, bytes.len() as int) =~= Seq::<u8>::empty());
    } else {
        let end = uu_line_end(bytes.len() as int, start);
        let chunk = bytes.subrange(start, end);
        let n = chunk.len();
        let groups = uu_groups_from(chunk, 0);
        let line = uu_line(chunk);
        let after = uu_lines_from(bytes, end);
        assert(uu_lines_from(bytes, start) == line + after);
        assert(text =~= (prefix + line) + after + uu_trailer());
        assert(text[pos] == (n + 32) as u8);
        assert(uu_value((n + 32) as u8) == n);
        assert(text.subrange(pos + 1, pos + 1 + groups.len()) =~= groups);
        lemma_groups_decode(chunk, 0, text, pos + 1);
        let g = (n + 2) / 3;
        assert(uu_decode_groups(text, pos + 1, g as nat).subrange(0, n as int) =~= chunk);
        lemma_lines_decode(bytes, end, prefix + line);
        assert((prefix + line).len() == pos + 1 + 4 * g + 1);
        assert(bytes.subrange(start, bytes.len() as int) =~= chunk + bytes.subrange(end, bytes.len() as int));
    }
}

/// uuencode output decodes back to the bytes it was made from.
pub proof fn lemma_uuencode_round_trip(bytes: Seq<u8>)
    ensures
        uudecode(formatted(bytes, OutputFormat::Uuencode)) == bytes,
{
    lemma_lines_decode(bytes, 0, uu_header());
    assert(formatted(bytes, OutputFormat::Uuencode) == uu_header() + uu_lines_from(bytes, 0) + uu_trailer());
    assert(bytes.subrange(0, bytes.len() as int) =~= bytes);
}

/// The six-bit value of a base64 symbol of either alphabet (0 for any other byte).
pub open spec fn b64_value(c: u8) -> u8 {
    if 65 <= c <= 90 {
        (c - 65) as u8
    } else if 97 <= c <= 122 {
        (c - 97 + 26) as u8
    } else if 48 <= c <= 57 {
        (c - 48 + 52) as u8
    } else if c == 43 || c == 45 {
        62
    } else if c == 47 || c == 95 {
        63
    } else {
        0
    }
}

/// Number of data symbols in the group of up to four characters at `pos`:
/// the characters present, less trailing `=`.
pub open spec fn b64_group_symbols(t: Seq<u8>, pos: int) -> int {
    let avail = if t.len() - pos >= 4 {
        4
    } else {
        t.len() - pos
    };
    if avail >= 3 && t[pos + 2] == b64_pad() {
        2
    } else if avail >= 4 && t[pos + 3] == b64_pad() {
        3
    } else {
        avail
    }
}

/// Symbol `i` of the group at `pos` as a six-bit value, 0 past its data symbols.
pub open spec fn b64_group_value(t: Seq<u8>, pos: int, i: int) -> u8 {
    if i < b64_group_symbols(t, pos) {
        b64_value(t[pos + i])
    } else {
        0
    }
}

/// Standard base64 decoding of the groups from `pos` on, either alphabet,
/// with or without padding: `k` data symbols in a group give `k - 1` bytes.
pub open spec fn b64_decode_from(t: Seq<u8>, pos: int) -> Seq<u8>
    decreases t.len() - pos,
{
    if pos < 0 || pos >= t.len() {
        Seq::empty()
    } else {
        let (v0, v1, v2, v3) = (
            b64_group_value(t, pos, 0),
            b64_group_value(t, pos, 1),
            b64_group_value(t, pos, 2),
            b64_group_value(t, pos, 3),
        );
        let bytes = seq![
            (v0 << 2u8) | (v1 >> 4u8),
            ((v1 & 0x0fu8) << 4u8) | (v2 >> 2u8),
            ((v2 & 3u8) << 6u8) | v3,
        ];
        let k = b64_group_symbols(t, pos);
        let piece = if k >= 2 {
            bytes.subrange(0, k - 1)
        } else {
            Seq::empty()
        };
        if pos + 4 >= t.len() {
            piece
        } else {
            piece + b64_decode_from(t, pos + 4)
        }
    }
}

proof fn lemma_b64_symbol_value(v: u8, url: bool)
    requires
        v < 64,
    ensures
        b64_value(b64_symbol(v, url)) == v,
        b64_symbol(v, url) != b64_pad(),
{
}

proof fn lemma_b64_quad_round_trip(b0: u8, b1: u8, b2: u8, url: bool)
    ensures
        ({
            let q = b64_quad(b0, b1, b2, url);
            let (v0, v1, v2, v3) = (b64_value(q[0]), b64_value(q[1]), b64_value(q[2]), b64_value(q[3]));
            &&& q[0] != b64_pad() && q[1] != b64_pad() && q[2] != b64_pad() && q[3] != b64_pad()
            &&& (v0 << 2u8) | (v1 >> 4u8) == b0
            &&& ((v1 & 0x0fu8) << 4u8) | (v2 >> 2u8) == b1
            &&& ((v2 & 3u8) << 6u8) | v3 == b2
        }),
{
    let v0 = b0 >> 2u8;
    let v1 = ((b0 & 3u8) << 4u8) | (b1 >> 4u8);
    let v2 = ((b1 & 0x0fu8) << 2u8) | (b2 >> 6u8);
    let v3 = b2 & 0x3fu8;
    assert(v0 < 64 && v1 < 64 && v2 < 64 && v3 < 64) by (bit_vector)
        requires
            v0 == b0 >> 2u8,
            v1 == ((b0 & 3u8) << 4u8) | (b1 >> 4u8),
            v2 == ((b1 & 0x0fu8) << 2u8) | (b2 >> 6u8),
            v3 == b2 & 0x3fu8,
    ;
    lemma_b64_symbol_value(v0, url);
    lemma_b64_symbol_value(v1, url);
    lemma_b64_symbol_value(v2, url);
    lemma_b64_symbol_value(v3, url);
    assert(((v0 << 2u8) | (v1 >> 4u8)) == b0 && (((v1 & 0x0fu8) << 4u8) | (v2 >> 2u8)) == b1 && (((
    v2 & 3u8) << 6u8) | v3) == b2) by (bit_vector)
        requires
            v0 == b0 >> 2u8,
            v1 == ((b0 & 3u8) << 4u8) | (b1 >> 4u8),
            v2 == ((b1 & 0x0fu8) << 2u8) | (b2 >> 6u8),
            v3 == b2 & 0x3fu8,
    ;
}

proof fn lemma_b64_decode(b: Seq<u8>, g: int, prefix: Seq<u8>, pad: bool, url: bool)
    requires
        0 <= g,
        3 * g <= b.len() + 2,
    ensures
        b64_decode_from(prefix + b64_groups_from(b, g, pad, url), prefix.len() as int)
            == b.subrange(if 3 * g <= b.len() { 3 * g } else { b.len() as int }, b.len() as int),
    decreases b.len() - g,
{
    let t = prefix + b64_groups_from(b, g, pad, url);
    let pos = prefix.len() as int;
    if 3 * g >= b.len() {
        assert(b64_groups_from(b, g, pad, url) =~= Seq::<u8>::empty());
        assert(b.subrange(if 3 * g <= b.len() { 3 * g } else { b.len() as int }, b.len() as int) =~= Seq::<u8>::empty());
    } else {
        let (b0, b1, b2) = (padded_at(b, 3 * g), padded_at(b, 3 * g + 1), padded_at(b, 3 * g + 2));
        let q = b64_quad(b0, b1, b2, url);
        let rem = b.len() - 3 * g;
        let piece = if rem >= 3 {
            q
        } else if rem == 2 {
            q.subrange(0, 3) + (if pad { seq![b64_pad()] } else { Seq::empty() })
        } else {
            q.subrange(0, 2) + (if pad { seq![b64_pad(), b64_pad()] } else { Seq::empty() })
        };
        let rest = b64_groups_from(b, g + 1, pad, url);
        assert(b64_groups_from(b, g, pad, url) == piece + rest);
        assert(t =~= (prefix + piece) + rest);
        lemma_b64_quad_round_trip(b0, b1, b2, url);
        if rem < 3 {
            assert(rest =~= Seq::<u8>::empty());
        }
        assert(t[pos] == q[0] && t[pos + 1] == q[1]);
        if rem >= 2 {
            assert(t[pos + 2] == q[2]);
        }
        if rem >= 3 {
            assert(t[pos + 3] == q[3]);
        }
        let k = b64_group_symbols(t, pos);
        assert(k == (if rem >= 3 { 4int } else { rem + 1 }));
        lemma_b64_decode(b, g + 1, prefix + piece, pad, url);
        assert((prefix + piece).len() == pos + 4 || rem < 3);
        if rem < 3 {
            assert(b64_decode_from(t, pos + 4) =~= Seq::<u8>::empty());
            assert(b.subrange(if 3 * (g + 1) <= b.len() { 3 * (g + 1) } else { b.len() as int }, b.len() as int) =~= Seq::<u8>::empty());
        }
        if pos + 4 >= t.len() && rem >= 3 {
            assert(rest.len() == 0);
            if 3 * (g + 1) < b.len() {
                assert(b64_groups_from(b, g + 1, pad, url).len() >= 2);
            }
            assert(b.subrange(3 * g + 3, b.len() as int) =~= Seq::<u8>::empty());
        }
        assert(b64_decode_from(t, pos) =~= b.subrange(3 * g, b.len() as int));
    }
}

/// Base64 output, standard with padding or URL-safe without, decodes back
/// to the bytes it was made from once its trailing line feed is removed.
pub proof fn lemma_base64_round_trip(bytes: Seq<u8>, url: bool)
    ensures
        b64_decode_from(
            formatted(bytes, if url { OutputFormat::Base64url } else { OutputFormat::Base64 }).drop_last(),
            0,
        ) == bytes,
{
    let fmt = if url { OutputFormat::Base64url } else { OutputFormat::Base64 };
    let body = b64_groups_from(bytes, 0, !url, url);
    assert(formatted(bytes, fmt).drop_last() =~= Seq::<u8>::empty() + body);
    lemma_b64_decode(bytes, 0, Seq::empty(), !url, url);
    assert(bytes.subrange(0, bytes.len() as int) =~= bytes);
}

} // verus!
