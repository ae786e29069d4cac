//! Byte-level encodings that the request builders assemble URLs and
//! bodies from: percent-encoding of path segments, the
//! `application/x-www-form-urlencoded` encoding of query parameters,
//! decimal rendering of integers, and JSON string escaping.
//!
//! Every encoder is a pure function of its input bytes, specified
//! byte-for-byte by the spec functions beside it.

use vstd::prelude::*;

use vstd::string::StrSliceExecFns;
use vstd::utf8::{encode_scalar, encode_utf8};

verus! {

/// Appending a character extends the encoding by that character's
/// scalar encoding.
pub proof fn lemma_encode_utf8_push(s: Seq<char>, c: char)
    ensures
        encode_utf8(s.push(c)) == encode_utf8(s) + encode_scalar(c as u32),
    decreases s.len(),
{
    if s.len() == 0 {
        assert(s.push(c)[0] == c);
        assert(s.push(c).drop_first() =~= s);
        assert(encode_utf8(s) =~= Seq::<u8>::empty());
        assert(encode_utf8(s.push(c)) =~= encode_utf8(s) + encode_scalar(c as u32));
    } else {
        assert(s.push(c)[0] == s[0]);
        assert(s.push(c).drop_first() =~= s.drop_first().push(c));
        lemma_encode_utf8_push(s.drop_first(), c);
        assert(encode_scalar(s[0] as u32) + (encode_utf8(s.drop_first()) + encode_scalar(
            c as u32,
        )) =~= (encode_scalar(s[0] as u32) + encode_utf8(s.drop_first())) + encode_scalar(
            c as u32,
        ));
    }
}

/// Append the UTF-8 encoding of one character.
fn push_char_utf8(out: &mut Vec<u8>, c: char)
    ensures
        final(out)@ == old(out)@ + encode_scalar(c as u32),
{
    proof {
        vstd::utf8::char_is_scalar(c);
    }
    let u = c as u32;
    if u <= 0x7F {
        proof {
            assert((u & 0x7F) <= 0x7F) by (bit_vector);
        }
        out.push((u & 0x7F) as u8);
    } else if u <= 0x7FF {
        proof {
            assert(((u >> 6) & 0x1F) <= 0x1F) by (bit_vector);
            assert((u & 0x3F) <= 0x3F) by (bit_vector);
        }
        out.push(0xC0 | ((u >> 6) & 0x1F) as u8);
        out.push(0x80 | (u & 0x3F) as u8);
    } else if u <= 0xFFFF {
        proof {
            assert(((u >> 12) & 0x0F) <= 0x0F) by (bit_vector);
            assert(((u >> 6) & 0x3F) <= 0x3F) by (bit_vector);
            assert((u & 0x3F) <= 0x3F) by (bit_vector);
        }
        out.push(0xE0 | ((u >> 12) & 0x0F) as u8);
        out.push(0x80 | ((u >> 6) & 0x3F) as u8);
        out.push(0x80 | (u & 0x3F) as u8);
    } else {
        proof {
            assert(((u >> 18) & 0x7) <= 0x7) by (bit_vector);
            assert(((u >> 12) & 0x3F) <= 0x3F) by (bit_vector);
            assert(((u >> 6) & 0x3F) <= 0x3F) by (bit_vector);
            assert((u & 0x3F) <= 0x3F) by (bit_vector);
        }
        out.push(0xF0 | ((u >> 18) & 0x7) as u8);
        out.push(0x80 | ((u >> 12) & 0x3F) as u8);
        out.push(0x80 | ((u >> 6) & 0x3F) as u8);
        out.push(0x80 | (u & 0x3F) as u8);
    }
    proof {
        assert(out@ =~= old(out)@ + encode_scalar(c as u32));
    }
}

/// The UTF-8 bytes of a string slice, character by character.
pub(crate) fn str_bytes(s: &str) -> (r: Vec<u8>)
    ensures
        r@ == encode_utf8(s@),
{
    let n = s.unicode_len();
    let mut out: Vec<u8> = Vec::new();
    for i in 0..n
        invariant
            n == s@.len(),
            out@ == encode_utf8(s@.take(i as int)),
    {
        let c = s.get_char(i);
        proof {
            assert(s@.take(i + 1) =~= s@.take(i as int).push(s@[i as int]));
            lemma_encode_utf8_push(s@.take(i as int), c);
        }
        push_char_utf8(&mut out, c);
    }
    proof {
        assert(s@.take(n as int) =~= s@);
    }
    out
}

/// Append one byte vector to another.
pub fn append_bytes(out: &mut Vec<u8>, piece: &Vec<u8>)
    ensures
        final(out)@ == old(out)@ + piece@,
{
    let n = piece.len();
    for i in 0..n
        invariant
            n == piece@.len(),
            out@ == old(out)@ + piece@.subrange(0, i as int),
    {
        out.push(piece[i]);
        proof {
            assert(out@ =~= old(out)@ + piece@.subrange(0, i + 1));
        }
    }
    proof {
        assert(piece@.subrange(0, piece@.len() as int) =~= piece@);
    }
}

/// Append the UTF-8 bytes of a string slice.
pub fn append_str(out: &mut Vec<u8>, s: &str)
    ensures
        final(out)@ == old(out)@ + encode_utf8(s@),
{
    let piece = str_bytes(s);
    append_bytes(out, &piece);
}

/// The ASCII digit for a value below sixteen, upper case.
pub open spec fn hex_upper(n: u8) -> u8
    recommends
        n < 16,
{
    if n < 10 {
        (0x30 + n) as u8
    } else {
        (0x41 + (n - 10)) as u8
    }
}

/// The ASCII digit for a value below sixteen, lower case.
pub open spec fn hex_lower(n: u8) -> u8
    recommends
        n < 16,
{
    if n < 10 {
        (0x30 + n) as u8
    } else {
        (0x61 + (n - 10)) as u8
    }
}

fn hex_upper_digit(n: u8) -> (r: u8)
    requires
        n < 16,
    ensures
        r == hex_upper(n),
{
    if n < 10 {
        0x30 + n
    } else {
        0x41 + (n - 10)
    }
}

fn hex_lower_digit(n: u8) -> (r: u8)
    requires
        n < 16,
    ensures
        r == hex_lower(n),
{
    if n < 10 {
        0x30 + n
    } else {
        0x61 + (n - 10)
    }
}

/// Whether a byte passes through a percent-encoded path segment
/// unchanged.  Encoded are the controls, the non-ASCII range, and
/// `space " # < > ? ` { } % /`.
pub open spec fn path_byte_is_plain(b: u8) -> bool {
    &&& 0x20 < b < 0x7f
    &&& b != 0x20
    &&& b != 0x22
    &&& b != 0x23
    &&& b != 0x3c
    &&& b != 0x3e
    &&& b != 0x3f
    &&& b != 0x60
    &&& b != 0x7b
    &&& b != 0x7d
    &&& b != 0x25
    &&& b != 0x2f
}

/// A byte's percent-encoding in a path segment.
pub open spec fn pct_byte(b: u8) -> Seq<u8> {
    if path_byte_is_plain(b) {
        seq![b]
    } else {
        seq![0x25u8, hex_upper(b / 16), hex_upper(b % 16)]
    }
}

/// A byte sequence's percent-encoding in a path segment.
pub open spec fn pct_seg(s: Seq<u8>) -> Seq<u8>
    decreases s.len(),
{
    if s.len() == 0 {
        Seq::<u8>::empty()
    } else {
        pct_seg(s.drop_last()) + pct_byte(s.last())
    }
}

/// Append the percent-encoding of a path segment.
pub fn append_pct_seg(out: &mut Vec<u8>, s: &Vec<u8>)
    ensures
        final(out)@ == old(out)@ + pct_seg(s@),
{
    let n = s.len();
    for i in 0..n
        invariant
            n == s@.len(),
            out@ == old(out)@ + pct_seg(s@.subrange(0, i as int)),
    {
        let b = s[i];
        if b > 0x20 && b < 0x7f && b != 0x22 && b != 0x23 && b != 0x3c && b != 0x3e && b != 0x3f
            && b != 0x60 && b != 0x7b && b != 0x7d && b != 0x25 && b != 0x2f {
            out.push(b);
        } else {
            out.push(0x25);
            out.push(hex_upper_digit(b / 16));
            out.push(hex_upper_digit(b % 16));
        }
        proof {
            let t = s@.subrange(0, i + 1);
            assert(t.drop_last() =~= s@.subrange(0, i as int));
            assert(t.last() == s@[i as int]);
            assert(out@ =~= old(out)@ + pct_seg(t));
        }
    }
    proof {
        assert(s@.subrange(0, s@.len() as int) =~= s@);
    }
}

/// Whether a byte passes through the form-urlencoded encoding unchanged:
/// the ASCII alphanumerics and `* - . _`.
pub open spec fn form_byte_is_plain(b: u8) -> bool {
    ||| 0x30 <= b <= 0x39
    ||| 0x41 <= b <= 0x5a
    ||| 0x61 <= b <= 0x7a
    ||| b == 0x2a
    ||| b == 0x2d
    ||| b == 0x2e
    ||| b == 0x5f
}

/// A byte's form-urlencoded encoding: space becomes `+`, plain bytes pass
/// through, everything else is percent-encoded.
pub open spec fn form_byte(b: u8) -> Seq<u8> {
    if b == 0x20 {
        seq![0x2bu8]
    } else if form_byte_is_plain(b) {
        seq![b]
    } else {
        seq![0x25u8, hex_upper(b / 16), hex_upper(b % 16)]
    }
}

/// A byte sequence's form-urlencoded encoding.
pub open spec fn form_seq(s: Seq<u8>) -> Seq<u8>
    decreases s.len(),
{
    if s.len() == 0 {
        Seq::<u8>::empty()
    } else {
        form_seq(s.drop_last()) + form_byte(s.last())
    }
}

/// Append the form-urlencoded encoding of a byte sequence.
pub fn append_form_seq(out: &mut Vec<u8>, s: &Vec<u8>)
    ensures
        final(out)@ == old(out)@ + form_seq(s@),
{
    let n = s.len();
    for i in 0..n
        invariant
            n == s@.len(),
            out@ == old(out)@ + form_seq(s@.subrange(0, i as int)),
    {
        let b = s[i];
        if b == 0x20 {
            out.push(0x2b);
        } else if (b >= 0x30 && b <= 0x39) || (b >= 0x41 && b <= 0x5a) || (b >= 0x61 && b <= 0x7a)
            || b == 0x2a || b == 0x2d || b == 0x2e || b == 0x5f {
            out.push(b);
        } else {
            out.push(0x25);
            out.push(hex_upper_digit(b / 16));
            out.push(hex_upper_digit(b % 16));
        }
        proof {
            let t = s@.subrange(0, i + 1);
            assert(t.drop_last() =~= s@.subrange(0, i as int));
            assert(t.last() == s@[i as int]);
            assert(out@ =~= old(out)@ + form_seq(t));
        }
    }
    proof {
        assert(s@.subrange(0, s@.len() as int) =~= s@);
    }
}

/// The decimal digits of a non-negative number.
pub open spec fn dec_nat(n: nat) -> Seq<u8>
    decreases n,
{
    if n < 10 {
        seq![(0x30 + n) as u8]
    } else {
        dec_nat(n / 10) + seq![(0x30 + n % 10) as u8]
    }
}

/// The decimal rendering of a signed number: a minus sign and then the
/// digits of its magnitude.
pub open spec fn dec_int(n: int) -> Seq<u8> {
    if n >= 0 {
        dec_nat(n as nat)
    } else {
        seq![0x2du8] + dec_nat((-n) as nat)
    }
}

/// Append the decimal digits of an unsigned number.
pub fn append_dec_u64(out: &mut Vec<u8>, n: u64)
    ensures
        final(out)@ == old(out)@ + dec_nat(n as nat),
    decreases n,
{
    if n < 10 {
        out.push(0x30 + (n as u8));
    } else {
        append_dec_u64(out, n / 10);
        out.push(0x30 + ((n % 10) as u8));
        proof {
            assert(out@ =~= old(out)@ + dec_nat(n as nat));
        }
    }
}

/// Append the decimal rendering of a signed number.
pub fn append_dec_i64(out: &mut Vec<u8>, n: i64)
    ensures
        final(out)@ == old(out)@ + dec_int(n as int),
{
    if n >= 0 {
        append_dec_u64(out, n as u64);
    } else {
        out.push(0x2d);
        let m: u64 = (-(n as i128)) as u64;
        proof {
            assert(m as nat == (-(n as int)) as nat);
        }
        append_dec_u64(out, m);
        proof {
            assert(out@ =~= old(out)@ + dec_int(n as int));
        }
    }
}

/// A byte's escape inside a JSON string: quote and backslash get a
/// backslash, the common controls get their short forms, the remaining
/// controls a `\u00..` escape, and everything else passes through.
pub open spec fn json_escape_byte(b: u8) -> Seq<u8> {
    if b == 0x22 {
        seq![0x5cu8, 0x22u8]
    } else if b == 0x5c {
        seq![0x5cu8, 0x5cu8]
    } else if b == 0x08 {
        seq![0x5cu8, 0x62u8]
    } else if b == 0x09 {
        seq![0x5cu8, 0x74u8]
    } else if b == 0x0a {
        seq![0x5cu8, 0x6eu8]
    } else if b == 0x0c {
        seq![0x5cu8, 0x66u8]
    } else if b == 0x0d {
        seq![0x5cu8, 0x72u8]
    } else if b < 0x20 {
        seq![0x5cu8, 0x75u8, 0x30u8, 0x30u8, hex_lower(b / 16), hex_lower(b % 16)]
    } else {
        seq![b]
    }
}

/// A byte sequence's contents as they stand inside a JSON string.
pub open spec fn json_escape(s: Seq<u8>) -> Seq<u8>
    decreases s.len(),
{
    if s.len() == 0 {
        Seq::<u8>::empty()
    } else {
        json_escape(s.drop_last()) + json_escape_byte(s.last())
    }
}

/// A whole JSON string: quotes around the escaped contents.
pub open spec fn json_string(s: Seq<u8>) -> Seq<u8> {
    seq![0x22u8] + json_escape(s) + seq![0x22u8]
}

/// Append a JSON string holding the given bytes.
pub fn append_json_string(out: &mut Vec<u8>, s: &Vec<u8>)
    ensures
        final(out)@ == old(out)@ + json_string(s@),
{
    out.push(0x22);
    let n = s.len();
    for i in 0..n
        invariant
            n == s@.len(),
            out@ == old(out)@ + seq![0x22u8] + json_escape(s@.subrange(0, i as int)),
    {
        let b = s[i];
        if b == 0x22 {
            out.push(0x5c);
            out.push(0x22);
        } else if b == 0x5c {
            out.push(0x5c);
            out.push(0x5c);
        } else if b == 0x08 {
            out.push(0x5c);
            out.push(0x62);
        } else if b == 0x09 {
            out.push(0x5c);
            out.push(0x74);
        } else if b == 0x0a {
            out.push(0x5c);
            out.push(0x6e);
        } else if b == 0x0c {
            out.push(0x5c);
            out.push(0x66);
        } else if b == 0x0d {
            out.push(0x5c);
            out.push(0x72);
        } else if b < 0x20 {
            out.push(0x5c);
            out.push(0x75);
            out.push(0x30);
            out.push(0x30);
            out.push(hex_lower_digit(b / 16));
            out.push(hex_lower_digit(b % 16));
        } else {
            out.push(b);
        }
        proof {
            let t = s@.subrange(0, i + 1);
            assert(t.drop_last() =~= s@.subrange(0, i as int));
            assert(t.last() == s@[i as int]);
            assert(out@ =~= old(out)@ + seq![0x22u8] + json_escape(t));
        }
    }
    out.push(0x22);
    proof {
        assert(s@.subrange(0, s@.len() as int) =~= s@);
        assert(out@ =~= old(out)@ + json_string(s@));
    }
}

/// The parts joined by a separator byte.
pub open spec fn join_sep(parts: Seq<Seq<u8>>, sep: u8) -> Seq<u8>
    decreases parts.len(),
{
    if parts.len() == 0 {
        Seq::<u8>::empty()
    } else if parts.len() == 1 {
        parts[0]
    } else {
        join_sep(parts.drop_last(), sep) + seq![sep] + parts.last()
    }
}

/// Append the parts joined by a separator byte.
pub fn append_joined(out: &mut Vec<u8>, parts: &Vec<Vec<u8>>, sep: u8)
    ensures
        final(out)@ == old(out)@ + join_sep(parts.deep_view(), sep),
{
    let n = parts.len();
    for i in 0..n
        invariant
            n == parts@.len(),
            parts.deep_view().len() == parts@.len(),
            forall|j: int| 0 <= j < n ==> parts.deep_view()[j] == (#[trigger] parts@[j])@,
            out@ == old(out)@ + join_sep(parts.deep_view().subrange(0, i as int), sep),
    {
        if i > 0 {
            out.push(sep);
        }
        append_bytes(out, &parts[i]);
        proof {
            let t = parts.deep_view().subrange(0, i + 1);
            assert(t.drop_last() =~= parts.deep_view().subrange(0, i as int));
            assert(t.last() == parts.deep_view()[i as int]);
            assert(out@ =~= old(out)@ + join_sep(t, sep));
        }
    }
    proof {
        assert(parts.deep_view().subrange(0, parts.deep_view().len() as int) =~= parts.deep_view());
    }
}

} // verus!
