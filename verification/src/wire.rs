use vstd::prelude::*;
use vstd::slice::{slice_subrange, slice_to_vec};
use vstd::utf8::{
    decode_utf8, decode_utf8_encode_utf8, encode_utf8, encode_utf8_decode_utf8,
    encode_utf8_valid_utf8, valid_utf8,
};

verus! {

/// The `width` low digits of `value` in base 256, least significant first.
pub open spec fn le_bytes(value: nat, width: nat) -> Seq<u8>
    decreases width,
{
    if width == 0 {
        Seq::empty()
    } else {
        seq![(value % 256) as u8] + le_bytes(value / 256, (width - 1) as nat)
    }
}

/// The number whose base-256 digits, least significant first, are `bytes`.
pub open spec fn le_value(bytes: Seq<u8>) -> nat
    decreases bytes.len(),
{
    if bytes.len() == 0 {
        0
    } else {
        bytes[0] as nat + 256 * le_value(bytes.drop_first())
    }
}

/// 256 to the power `width`: one more than the largest number of `width` digits.
pub open spec fn le_limit(width: nat) -> nat
    decreases width,
{
    if width == 0 {
        1
    } else {
        256 * le_limit((width - 1) as nat)
    }
}

/// An encoding has as many digits as were asked for.
pub proof fn lemma_le_bytes_len(value: nat, width: nat)
    ensures
        le_bytes(value, width).len() == width,
    decreases width,
{
    if width > 0 {
        lemma_le_bytes_len(value / 256, (width - 1) as nat);
    }
}

/// A digit string of `n` digits stands for a number below 256 to the `n`.
pub proof fn lemma_le_value_bound(bytes: Seq<u8>)
    ensures
        le_value(bytes) < le_limit(bytes.len()),
    decreases bytes.len(),
{
    if bytes.len() > 0 {
        lemma_le_value_bound(bytes.drop_first());
    }
}

/// Decoding the digits of a number that fits gives the number back.
pub proof fn lemma_le_value_of_bytes(value: nat, width: nat)
    requires
        value < le_limit(width),
    ensures
        le_value(le_bytes(value, width)) == value,
    decreases width,
{
    if width > 0 {
        let rest = le_bytes(value / 256, (width - 1) as nat);
        lemma_le_bytes_len(value / 256, (width - 1) as nat);
        lemma_le_value_of_bytes(value / 256, (width - 1) as nat);
        assert(le_bytes(value, width).drop_first() =~= rest);
    }
}

/// Encoding the number that a digit string stands for gives the string back.
pub proof fn lemma_le_bytes_of_value(bytes: Seq<u8>)
    ensures
        le_bytes(le_value(bytes), bytes.len()) == bytes,
    decreases bytes.len(),
{
    if bytes.len() > 0 {
        let rest = bytes.drop_first();
        lemma_le_bytes_of_value(rest);
        let v = le_value(bytes);
        assert(v % 256 == bytes[0] as nat && v / 256 == le_value(rest));
        assert(le_bytes(v, bytes.len()) =~= bytes);
    } else {
        assert(le_bytes(le_value(bytes), bytes.len()) =~= bytes);
    }
}

/// Four digits reach exactly the 32-bit range, eight the 64-bit range.
pub proof fn lemma_le_limits()
    ensures
        le_limit(4) == 0x1_0000_0000,
        le_limit(8) == 0x1_0000_0000_0000_0000,
{
    reveal_with_fuel(le_limit, 9);
}

/// Appends the `width` low base-256 digits of `value` to `out`.
pub(crate) fn put_le(out: &mut Vec<u8>, value: u64, width: usize)
    requires
        width <= 8,
    ensures
        final(out)@ == old(out)@ + le_bytes(value as nat, width as nat),
{
    let mut rest: u64 = value;
    let mut i: usize = 0;
    while i < width
        invariant
            i <= width,
            out@ + le_bytes(rest as nat, (width - i) as nat) == old(out)@ + le_bytes(
                value as nat,
                width as nat,
            ),
        decreases width - i,
    {
        let ghost before = out@;
        out.push((rest % 256) as u8);
        proof {
            let tail = le_bytes((rest / 256) as nat, (width - i - 1) as nat);
            assert(le_bytes(rest as nat, (width - i) as nat) =~= seq![(rest % 256) as u8] + tail);
            assert(out@ + tail =~= before + le_bytes(rest as nat, (width - i) as nat));
        }
        rest = rest / 256;
        i += 1;
    }
    assert(out@ + le_bytes(rest as nat, 0) =~= out@);
}

/// Reads the number whose digits are the `width` bytes of `bytes` from `start`.
pub(crate) fn get_le(bytes: &[u8], start: usize, width: usize) -> (value: u64)
    requires
        width <= 8,
        start + width <= bytes@.len(),
    ensures
        value == le_value(bytes@.subrange(start as int, start + width)),
{
    let len = bytes.len();
    let mut value: u64 = 0;
    let mut i: usize = width;
    assert(bytes@.subrange(start + width, start + width).len() == 0);
    while i > 0
        invariant
            i <= width <= 8,
            start + width <= len == bytes@.len(),
            value == le_value(bytes@.subrange(start + i, start + width)),
        decreases i,
    {
        let ghost upper = bytes@.subrange(start + i, start + width);
        let ghost whole = bytes@.subrange(start + i - 1, start + width);
        proof {
            assert(whole.drop_first() =~= upper);
            lemma_le_value_bound(upper);
            lemma_le_limit_monotone(upper.len(), 7);
            reveal_with_fuel(le_limit, 8);
        }
        i -= 1;
        value = value * 256 + bytes[start + i] as u64;
    }
    value
}

/// More digits reach further.
pub proof fn lemma_le_limit_monotone(narrow: nat, wide: nat)
    requires
        narrow <= wide,
    ensures
        le_limit(narrow) <= le_limit(wide),
    decreases wide,
{
    if narrow < wide {
        lemma_le_limit_monotone(narrow, (wide - 1) as nat);
    }
}

/// Whether the UTF-8 form of `text` is short enough for a 32-bit length prefix.
pub open spec fn fits_prefix(text: Seq<char>) -> bool {
    encode_utf8(text).len() <= u32::MAX
}

/// A string on the wire: the byte length of its UTF-8 form as four
/// little-endian bytes, then the UTF-8 form.
pub open spec fn text_wire(text: Seq<char>) -> Seq<u8> {
    le_bytes(encode_utf8(text).len(), 4) + encode_utf8(text)
}

/// The string that stands at the head of `bytes`, with the number of bytes it
/// takes there; `None` where the prefix is cut short, announces more bytes
/// than follow it, or the announced bytes are not UTF-8.
pub open spec fn parse_text(bytes: Seq<u8>) -> Option<(Seq<char>, nat)> {
    if bytes.len() < 4 {
        None
    } else {
        let announced = le_value(bytes.subrange(0, 4));
        let body = bytes.subrange(4, (4 + announced) as int);
        if bytes.len() < 4 + announced || !valid_utf8(body) {
            None
        } else {
            Some((decode_utf8(body), 4 + announced))
        }
    }
}

/// A string written to the wire is read back, whatever follows it.
pub proof fn lemma_parse_text_of_wire(text: Seq<char>, rest: Seq<u8>)
    requires
        fits_prefix(text),
    ensures
        parse_text(text_wire(text) + rest) == Some((text, text_wire(text).len())),
        text_wire(text).len() == 4 + encode_utf8(text).len(),
{
    let body = encode_utf8(text);
    let bytes = text_wire(text) + rest;
    lemma_le_bytes_len(body.len(), 4);
    lemma_le_limits();
    lemma_le_value_of_bytes(body.len(), 4);
    assert(bytes.subrange(0, 4) =~= le_bytes(body.len(), 4));
    assert(bytes.subrange(4, (4 + body.len()) as int) =~= body);
    encode_utf8_valid_utf8(text);
    encode_utf8_decode_utf8(text);
}

/// What is read from the wire is what was written there: the bytes that a
/// parsed string takes are the wire form of that string.
pub proof fn lemma_wire_of_parse_text(bytes: Seq<u8>, text: Seq<char>, taken: nat)
    requires
        parse_text(bytes) == Some((text, taken)),
    ensures
        fits_prefix(text),
        taken <= bytes.len(),
        bytes.subrange(0, taken as int) == text_wire(text),
{
    let prefix = bytes.subrange(0, 4);
    let announced = le_value(prefix);
    let body = bytes.subrange(4, (4 + announced) as int);
    lemma_le_value_bound(prefix);
    lemma_le_limits();
    lemma_le_bytes_of_value(prefix);
    decode_utf8_encode_utf8(body);
    assert(bytes.subrange(0, (4 + announced) as int) =~= prefix + body);
}

/// Calls `String::from_utf8`. Trusted: on success the string's UTF-8 form is
/// the bytes handed in, and it fails only on bytes that are not UTF-8.
#[verifier::external_body]
fn string_from_utf8(bytes: Vec<u8>) -> (text: Option<String>)
    ensures
        match text {
            Some(s) => encode_utf8(s@) == bytes@,
            None => !valid_utf8(bytes@),
        },
{
    String::from_utf8(bytes).ok()
}

/// Appends `bytes` to `out`.
pub(crate) fn put_bytes(out: &mut Vec<u8>, bytes: &[u8])
    ensures
        final(out)@ == old(out)@ + bytes@,
{
    let len = bytes.len();
    let mut i: usize = 0;
    while i < len
        invariant
            i <= len == bytes@.len(),
            out@ == old(out)@ + bytes@.subrange(0, i as int),
        decreases len - i,
    {
        out.push(bytes[i]);
        i += 1;
        assert(out@ =~= old(out)@ + bytes@.subrange(0, i as int));
    }
    assert(bytes@.subrange(0, len as int) =~= bytes@);
}

/// Appends the wire form of `text` to `out`.
pub(crate) fn put_text(out: &mut Vec<u8>, text: &str)
    requires
        fits_prefix(text@),
    ensures
        final(out)@ == old(out)@ + text_wire(text@),
{
    let body = text.as_bytes();
    put_le(out, body.len() as u64, 4);
    put_bytes(out, body);
    assert(out@ =~= old(out)@ + text_wire(text@));
}

/// Reads the string that stands at `start` in `bytes`; with it comes the
/// index of the first byte behind it.
pub(crate) fn get_text(bytes: &[u8], start: usize) -> (found: Option<(String, usize)>)
    requires
        start <= bytes@.len(),
    ensures
        match parse_text(bytes@.skip(start as int)) {
            Some((text, taken)) => found matches Some((s, next)) && s@ == text && next == start
                + taken,
            None => found is None,
        },
{
    let ghost tail = bytes@.skip(start as int);
    let len = bytes.len();
    if len - start < 4 {
        return None;
    }
    let announced = get_le(bytes, start, 4);
    proof {
        assert(bytes@.subrange(start as int, start + 4) =~= tail.subrange(0, 4));
        lemma_le_value_bound(tail.subrange(0, 4));
        lemma_le_limits();
    }
    let room: u64 = (len - start - 4) as u64;
    if room < announced {
        return None;
    }
    let body_start = start + 4;
    let next = body_start + announced as usize;
    let body = slice_to_vec(slice_subrange(bytes, body_start, next));
    assert(body@ =~= tail.subrange(4, 4 + announced));
    match string_from_utf8(body) {
        Some(s) => {
            proof {
                encode_utf8_valid_utf8(s@);
                encode_utf8_decode_utf8(s@);
            }
            Some((s, next))
        },
        None => None,
    }
}

/// Whether two strings hold the same text.
pub fn same_text(a: &str, b: &str) -> (same: bool)
    ensures
        same == (a@ == b@),
{
    let left = a.as_bytes();
    let right = b.as_bytes();
    proof {
        encode_utf8_decode_utf8(a@);
        encode_utf8_decode_utf8(b@);
    }
    let len = left.len();
    if right.len() != len {
        return false;
    }
    let mut i: usize = 0;
    while i < len
        invariant
            i <= len == left@.len() == right@.len(),
            left@ == encode_utf8(a@),
            right@ == encode_utf8(b@),
            forall|j: int| 0 <= j < i ==> left@[j] == right@[j],
        decreases len - i,
    {
        if left[i] != right[i] {
            return false;
        }
        i += 1;
    }
    assert(left@ =~= right@);
    true
}

} // verus!
