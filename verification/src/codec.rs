//! The Borsh byte layout of the protocol's state: integers little endian,
//! byte strings and text prefixed by a little-endian `u32` length.
use vstd::prelude::*;

verus! {

broadcast use {vstd::utf8::encode_utf8_decode_utf8, vstd::utf8::encode_utf8_valid_utf8};

/// `256^n`.
pub open spec fn pow256(n: nat) -> nat
    decreases n,
{
    if n == 0 { 1 } else { 256 * pow256((n - 1) as nat) }
}

/// The `len` low bytes of `v`, least significant first.
pub open spec fn le_bytes(v: nat, len: nat) -> Seq<u8>
    decreases len,
{
    if len == 0 {
        Seq::empty()
    } else {
        seq![(v % 256) as u8] + le_bytes(v / 256, (len - 1) as nat)
    }
}

/// The number whose little-endian bytes are `b`.
pub open spec fn le_value(b: Seq<u8>) -> nat
    decreases b.len(),
{
    if b.len() == 0 {
        0
    } else {
        b[0] as nat + 256 * le_value(b.drop_first())
    }
}

/// The Borsh encoding of a byte string: its length as a `u32`, then its bytes.
pub open spec fn encode_bytes(b: Seq<u8>) -> Seq<u8> {
    le_bytes(b.len(), 4) + b
}

/// The Borsh encoding of a text: its UTF-8 bytes framed as a byte string.
pub open spec fn encode_text(s: Seq<char>) -> Seq<u8> {
    encode_bytes(vstd::utf8::encode_utf8(s))
}

pub proof fn lemma_pow256_positive(n: nat)
    ensures
        pow256(n) >= 1,
    decreases n,
{
    if n > 0 {
        lemma_pow256_positive((n - 1) as nat);
    }
}

pub proof fn lemma_pow256_monotonic(a: nat, b: nat)
    requires
        a <= b,
    ensures
        pow256(a) <= pow256(b),
    decreases b,
{
    if a < b {
        lemma_pow256_monotonic(a, (b - 1) as nat);
        lemma_pow256_positive((b - 1) as nat);
    }
}

pub proof fn lemma_pow256_values()
    ensures
        pow256(4) == 0x1_0000_0000,
        pow256(8) == 0x1_0000_0000_0000_0000,
        pow256(16) == 0x1_0000_0000_0000_0000_0000_0000_0000_0000,
{
    reveal_with_fuel(pow256, 17);
}

/// Reading back the `len` low bytes of a value below `256^len` gives the value.
pub proof fn lemma_le_roundtrip(v: nat, len: nat)
    requires
        v < pow256(len),
    ensures
        le_bytes(v, len).len() == len,
        le_value(le_bytes(v, len)) == v,
    decreases len,
{
    if len > 0 {
        let p = pow256((len - 1) as nat);
        assert(v / 256 < p) by (nonlinear_arith)
            requires
                v < 256 * p,
        ;
        lemma_le_roundtrip(v / 256, (len - 1) as nat);
        let rest = le_bytes(v / 256, (len - 1) as nat);
        assert((seq![(v % 256) as u8] + rest).drop_first() =~= rest);
        assert(v == v % 256 + 256 * (v / 256)) by (nonlinear_arith);
    }
}

/// A value read from `n` bytes is below `256^n`.
pub proof fn lemma_le_value_bound(b: Seq<u8>)
    ensures
        le_value(b) < pow256(b.len()),
    decreases b.len(),
{
    if b.len() > 0 {
        lemma_le_value_bound(b.drop_first());
        let r = le_value(b.drop_first());
        let p = pow256((b.len() - 1) as nat);
        assert(b[0] as nat + 256 * r < 256 * p) by (nonlinear_arith)
            requires
                r < p,
                b[0] < 256,
        ;
    }
}

/// Appends the `width` little-endian bytes of `v`.
pub fn push_le(out: &mut Vec<u8>, v: u128, width: usize)
    requires
        width <= 16,
        v < pow256(width as nat),
    ensures
        final(out)@ == old(out)@ + le_bytes(v as nat, width as nat),
{
    let mut rest = v;
    let mut i: usize = 0;
    while i < width
        invariant
            i <= width,
            out@ + le_bytes(rest as nat, (width - i) as nat) == old(out)@ + le_bytes(v as nat, width as nat),
        decreases width - i,
    {
        let ghost before = out@;
        out.push((rest % 256) as u8);
        assert(le_bytes(rest as nat, (width - i) as nat) == seq![(rest % 256) as u8] + le_bytes(
            (rest / 256) as nat,
            (width - i - 1) as nat,
        ));
        assert(before + le_bytes(rest as nat, (width - i) as nat) =~= out@ + le_bytes(
            (rest / 256) as nat,
            (width - i - 1) as nat,
        ));
        rest = rest / 256;
        i = i + 1;
    }
}

/// Reads the little-endian number in `bytes[pos..pos + width]`.
pub fn read_le(bytes: &[u8], pos: usize, width: usize) -> (r: u128)
    requires
        width <= 16,
        pos + width <= bytes@.len(),
    ensures
        r == le_value(bytes@.subrange(pos as int, pos + width)),
{
    let mut acc: u128 = 0;
    let mut i: usize = width;
    let n = bytes.len();
    proof {
        lemma_pow256_values();
        lemma_pow256_monotonic(width as nat, 16);
    }
    while i > 0
        invariant
            i <= width <= 16,
            pos + width <= bytes@.len(),
            n == bytes@.len(),
            pow256(16) == 0x1_0000_0000_0000_0000_0000_0000_0000_0000,
            acc == le_value(bytes@.subrange(pos + i, pos + width)),
        decreases i,
    {
        i = i - 1;
        let ghost tail = bytes@.subrange(pos + i + 1, pos + width);
        let ghost s = bytes@.subrange(pos + i, pos + width);
        assert(s.drop_first() =~= tail);
        proof {
            lemma_le_value_bound(tail);
            lemma_pow256_monotonic(tail.len(), 15);
            lemma_pow256_values();
            reveal_with_fuel(pow256, 2);
        }
        let b = bytes[pos + i];
        assert(acc * 256 + b < pow256(16)) by (nonlinear_arith)
            requires
                acc < pow256(tail.len()),
                pow256(tail.len()) <= pow256(15),
                pow256(16) == 256 * pow256(15),
                b < 256,
        ;
        acc = acc * 256 + b as u128;
    }
    acc
}

/// Copies `bytes[start..end]` into a new vector.
pub fn copy_range(bytes: &[u8], start: usize, end: usize) -> (r: Vec<u8>)
    requires
        start <= end <= bytes@.len(),
    ensures
        r@ == bytes@.subrange(start as int, end as int),
{
    let mut r: Vec<u8> = Vec::new();
    let mut i = start;
    while i < end
        invariant
            start <= i <= end <= bytes@.len(),
            r@ == bytes@.subrange(start as int, i as int),
        decreases end - i,
    {
        r.push(bytes[i]);
        i = i + 1;
    }
    r
}

/// Appends all of `b` to `out`.
pub fn push_all(out: &mut Vec<u8>, b: &[u8])
    ensures
        final(out)@ == old(out)@ + b@,
{
    let mut i: usize = 0;
    while i < b.len()
        invariant
            i <= b@.len(),
            out@ == old(out)@ + b@.subrange(0, i as int),
        decreases b@.len() - i,
    {
        out.push(b[i]);
        i = i + 1;
        assert(out@ =~= old(out)@ + b@.subrange(0, i as int));
    }
    assert(b@.subrange(0, b@.len() as int) =~= b@);
}

/// Appends a byte string in Borsh layout.
pub fn push_bytes(out: &mut Vec<u8>, b: &[u8])
    requires
        b@.len() <= u32::MAX,
    ensures
        final(out)@ == old(out)@ + encode_bytes(b@),
{
    proof {
        lemma_pow256_values();
    }
    push_le(out, b.len() as u128, 4);
    push_all(out, b);
    assert(final(out)@ =~= old(out)@ + encode_bytes(b@));
}

/// Appends a text in Borsh layout.
pub fn push_text(out: &mut Vec<u8>, s: &String)
    requires
        vstd::utf8::encode_utf8(s@).len() <= u32::MAX,
    ensures
        final(out)@ == old(out)@ + encode_text(s@),
{
    let b = s.as_str().as_bytes();
    push_bytes(out, b);
}

/// Reads a Borsh byte string at `pos`: its bytes and the position after it,
/// or `None` where the input ends before the string does.
pub fn read_bytes(bytes: &[u8], pos: usize) -> (r: Option<(Vec<u8>, usize)>)
    requires
        pos <= bytes@.len(),
    ensures
        match r {
            Some((b, next)) => {
                &&& pos + 4 <= bytes@.len()
                &&& b@.len() == le_value(bytes@.subrange(pos as int, pos + 4))
                &&& next == pos + 4 + b@.len()
                &&& next <= bytes@.len()
                &&& b@ == bytes@.subrange(pos + 4, next as int)
            },
            None => pos + 4 > bytes@.len() || pos + 4 + le_value(bytes@.subrange(pos as int, pos + 4))
                > bytes@.len(),
        },
{
    if bytes.len() - pos < 4 {
        return None;
    }
    let len = read_le(bytes, pos, 4);
    if len > (bytes.len() - pos - 4) as u128 {
        return None;
    }
    let start = pos + 4;
    let end = start + len as usize;
    let b = copy_range(bytes, start, end);
    Some((b, end))
}

/// Bytes are the little-endian bytes of the value they encode.
pub proof fn lemma_le_bytes_of_value(b: Seq<u8>)
    ensures
        le_bytes(le_value(b), b.len()) == b,
    decreases b.len(),
{
    if b.len() > 0 {
        let r = b.drop_first();
        lemma_le_bytes_of_value(r);
        let v = le_value(b);
        assert(v % 256 == b[0] as nat && v / 256 == le_value(r)) by (nonlinear_arith)
            requires
                v == b[0] as nat + 256 * le_value(r),
                b[0] < 256,
        ;
        assert(le_bytes(v, b.len()) =~= b);
    }
}

/// Interprets bytes as UTF-8 text.
///
/// Calls `String::from_utf8`, which std documents to succeed exactly on valid
/// UTF-8 and then to hold the characters that the bytes encode.
#[verifier::external_body]
pub(crate) fn string_from_utf8(b: Vec<u8>) -> (r: Option<String>)
    ensures
        r is Some <==> vstd::utf8::valid_utf8(b@),
        r matches Some(s) ==> s@ == vstd::utf8::decode_utf8(b@),
{
    String::from_utf8(b).ok()
}

/// The length prefix of the Borsh string at `pos`.
pub open spec fn prefix_len(bytes: Seq<u8>, pos: int) -> nat {
    le_value(bytes.subrange(pos, pos + 4))
}

/// A whole Borsh text starts at `pos`: its length prefix and its bytes are
/// within the input, and its bytes are UTF-8.
pub open spec fn text_at(bytes: Seq<u8>, pos: int) -> bool {
    &&& pos + 4 <= bytes.len()
    &&& pos + 4 + prefix_len(bytes, pos) <= bytes.len()
    &&& vstd::utf8::valid_utf8(bytes.subrange(pos + 4, pos + 4 + prefix_len(bytes, pos)))
}

/// The text that starts at `pos` and the position after it, if a whole
/// text starts there.
pub open spec fn text_parse(bytes: Seq<u8>, pos: int) -> Option<(Seq<char>, int)> {
    if text_at(bytes, pos) {
        Some(
            (
                vstd::utf8::decode_utf8(bytes.subrange(pos + 4, pos + 4 + prefix_len(bytes, pos))),
                pos + 4 + prefix_len(bytes, pos),
            ),
        )
    } else {
        None
    }
}

/// Where the encoding of `s` stands at `pos`, the text read there is `s`,
/// and it ends where the encoding does.
pub proof fn lemma_text_parse_encoding(bytes: Seq<u8>, pos: int, s: Seq<char>)
    requires
        0 <= pos,
        vstd::utf8::encode_utf8(s).len() <= u32::MAX,
        pos + encode_text(s).len() <= bytes.len(),
        bytes.subrange(pos, pos + encode_text(s).len()) == encode_text(s),
    ensures
        text_parse(bytes, pos) == Some((s, pos + encode_text(s).len())),
{
    lemma_pow256_values();
    let u = vstd::utf8::encode_utf8(s);
    lemma_le_roundtrip(u.len(), 4);
    let e = encode_text(s);
    assert(e.subrange(0, 4) =~= le_bytes(u.len(), 4));
    assert(bytes.subrange(pos, pos + 4) =~= e.subrange(0, 4));
    assert(e.subrange(4, 4 + u.len() as int) =~= u);
    assert(bytes.subrange(pos + 4, pos + 4 + u.len()) =~= e.subrange(4, 4 + u.len() as int));
}

/// A text read at `pos` is framed by its own encoding.
pub proof fn lemma_text_parse_sound(bytes: Seq<u8>, pos: int)
    requires
        0 <= pos,
        text_parse(bytes, pos) is Some,
    ensures
        ({
            let (s, next) = text_parse(bytes, pos).unwrap();
            &&& next == pos + encode_text(s).len()
            &&& next <= bytes.len()
            &&& bytes.subrange(pos, next) == encode_text(s)
            &&& vstd::utf8::encode_utf8(s).len() <= u32::MAX
        }),
{
    lemma_pow256_values();
    let n = prefix_len(bytes, pos);
    let u = bytes.subrange(pos + 4, pos + 4 + n);
    vstd::utf8::decode_utf8_encode_utf8(u);
    lemma_le_bytes_of_value(bytes.subrange(pos, pos + 4));
    lemma_le_value_bound(bytes.subrange(pos, pos + 4));
    let (s, next) = text_parse(bytes, pos).unwrap();
    assert(bytes.subrange(pos, next) =~= le_bytes(n, 4) + u);
}

/// Reads a Borsh text at `pos`: the text and the position after it, or `None`
/// where the input ends early or the bytes are not UTF-8.
pub fn read_text(bytes: &[u8], pos: usize) -> (r: Option<(String, usize)>)
    requires
        pos <= bytes@.len(),
    ensures
        r is Some <==> text_at(bytes@, pos as int),
        r matches Some((s, next)) ==> {
            &&& next == pos + 4 + prefix_len(bytes@, pos as int)
            &&& s@ == vstd::utf8::decode_utf8(bytes@.subrange(pos + 4, next as int))
        },
{
    match read_bytes(bytes, pos) {
        Some((b, next)) => {
            match string_from_utf8(b) {
                Some(s) => Some((s, next)),
                None => None,
            }
        },
        None => None,
    }
}

} // verus!
