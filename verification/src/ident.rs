//! The identifier codec.
//!
//! Shapes and cached images are named by an opaque 128-bit identifier
//! that the host transports as four unsigned 32-bit words in a fixed
//! quartet order.  The identifier converts to a canonical byte-string
//! key (lowercase hexadecimal, one group of eight digits per word,
//! groups separated by dashes) used purely as an equality/lookup key,
//! never as a display format.  The conversion is deterministic and
//! injective: distinct identifiers never share a key.

use vstd::prelude::*;

verus! {

/// An opaque 128-bit identifier, as the four host words that built it.
/// Equality is structural.
#[derive(Clone, Copy, Debug, PartialEq, Eq, Structural)]
pub struct Identifier {
    pub w0: u32,
    pub w1: u32,
    pub w2: u32,
    pub w3: u32,
}

/// Builds an identifier from four host words, in quartet order.
/// Deterministic, total, pure.
pub fn from_quartet(a: u32, b: u32, c: u32, d: u32) -> (r: Identifier)
    ensures
        r == (Identifier { w0: a, w1: b, w2: c, w3: d }),
{
    Identifier { w0: a, w1: b, w2: c, w3: d }
}

/// The `k`-th hexadecimal digit of `w`, most significant first.
pub open spec fn nibble(w: u32, k: u32) -> u32
    recommends
        k < 8,
{
    (w >> ((7 - k) * 4) as u32) & 0xF
}

/// The lowercase ASCII hexadecimal digit for a value below sixteen.
pub open spec fn hex_digit(n: u32) -> u8
    recommends
        n < 16,
{
    if n < 10 {
        (0x30 + n) as u8
    } else {
        (0x57 + n) as u8
    }
}

/// The eight lowercase hexadecimal digits of `w`, most significant first.
pub open spec fn hex8(w: u32) -> Seq<u8> {
    Seq::new(8, |k: int| hex_digit(nibble(w, k as u32)))
}

/// The ASCII dash that separates the four digit groups of a key.
pub const DASH: u8 = 0x2D;

/// The canonical key of an identifier: four groups of eight lowercase
/// hexadecimal digits, separated by dashes.
pub open spec fn key_of(id: Identifier) -> Seq<u8> {
    hex8(id.w0) + seq![DASH] + hex8(id.w1) + seq![DASH] + hex8(id.w2) + seq![DASH] + hex8(id.w3)
}

/// The lowercase ASCII hexadecimal digit for a value below sixteen.
fn hex_digit_of(n: u32) -> (d: u8)
    requires
        n < 16,
    ensures
        d == hex_digit(n),
{
    if n < 10 {
        (0x30 + n) as u8
    } else {
        (0x57 + n) as u8
    }
}

/// Appends the eight hexadecimal digits of `w` to `out`.
fn push_hex8(out: &mut Vec<u8>, w: u32)
    ensures
        final(out)@ == old(out)@ + hex8(w),
{
    let ghost start = out@;
    let mut k: u32 = 0;
    while k < 8
        invariant
            k <= 8,
            out@ == start + hex8(w).subrange(0, k as int),
        decreases 8 - k,
    {
        let nib: u32 = (w >> ((7 - k) * 4)) & 0xF;
        assert(nib < 16) by (bit_vector)
            requires
                nib == (w >> ((7 - k) * 4) as u32) & 0xF,
        ;
        assert(nib == nibble(w, k));
        let d = hex_digit_of(nib);
        out.push(d);
        assert(hex8(w).subrange(0, k + 1) =~= hex8(w).subrange(0, k as int).push(hex8(w)[k as int]));
        k = k + 1;
    }
    assert(hex8(w).subrange(0, 8) =~= hex8(w));
}

/// The canonical key of an identifier, as ASCII bytes.
///
/// Stable and injective over all identifiers
/// (see [`lemma_to_key_injective`]); meant only as a map key.
pub fn to_key(id: Identifier) -> (r: Vec<u8>)
    ensures
        r@ == key_of(id),
{
    let mut out: Vec<u8> = Vec::new();
    push_hex8(&mut out, id.w0);
    out.push(DASH);
    push_hex8(&mut out, id.w1);
    out.push(DASH);
    push_hex8(&mut out, id.w2);
    out.push(DASH);
    push_hex8(&mut out, id.w3);
    assert(out@ =~= key_of(id));
    out
}

/// Two values below sixteen with the same hexadecimal digit are equal.
proof fn lemma_hex_digit_injective(a: u32, b: u32)
    requires
        a < 16,
        b < 16,
        hex_digit(a) == hex_digit(b),
    ensures
        a == b,
{
}

/// Two words with the same eight hexadecimal digits are equal.
proof fn lemma_hex8_injective(x: u32, y: u32)
    requires
        hex8(x) == hex8(y),
    ensures
        x == y,
{
    assert forall|k: u32| k < 8 implies nibble(x, k) == nibble(y, k) by {
        assert(hex8(x)[k as int] == hex_digit(nibble(x, k)));
        assert(hex8(y)[k as int] == hex_digit(nibble(y, k)));
        assert(hex8(x)[k as int] == hex8(y)[k as int]);
        assert(nibble(x, k) < 16) by (bit_vector)
            requires
                k < 8,
                nibble(x, k) == (x >> ((7 - k) * 4) as u32) & 0xF,
        ;
        assert(nibble(y, k) < 16) by (bit_vector)
            requires
                k < 8,
                nibble(y, k) == (y >> ((7 - k) * 4) as u32) & 0xF,
        ;
        lemma_hex_digit_injective(nibble(x, k), nibble(y, k));
    }
    assert(nibble(x, 0) == (x >> 28u32) & 0xF && nibble(y, 0) == (y >> 28u32) & 0xF);
    assert(nibble(x, 1) == (x >> 24u32) & 0xF && nibble(y, 1) == (y >> 24u32) & 0xF);
    assert(nibble(x, 2) == (x >> 20u32) & 0xF && nibble(y, 2) == (y >> 20u32) & 0xF);
    assert(nibble(x, 3) == (x >> 16u32) & 0xF && nibble(y, 3) == (y >> 16u32) & 0xF);
    assert(nibble(x, 4) == (x >> 12u32) & 0xF && nibble(y, 4) == (y >> 12u32) & 0xF);
    assert(nibble(x, 5) == (x >> 8u32) & 0xF && nibble(y, 5) == (y >> 8u32) & 0xF);
    assert(nibble(x, 6) == (x >> 4u32) & 0xF && nibble(y, 6) == (y >> 4u32) & 0xF);
    assert(nibble(x, 7) == (x >> 0u32) & 0xF && nibble(y, 7) == (y >> 0u32) & 0xF);
    assert(x == y) by (bit_vector)
        requires
            (x >> 28u32) & 0xF == (y >> 28u32) & 0xF,
            (x >> 24u32) & 0xF == (y >> 24u32) & 0xF,
            (x >> 20u32) & 0xF == (y >> 20u32) & 0xF,
            (x >> 16u32) & 0xF == (y >> 16u32) & 0xF,
            (x >> 12u32) & 0xF == (y >> 12u32) & 0xF,
            (x >> 8u32) & 0xF == (y >> 8u32) & 0xF,
            (x >> 4u32) & 0xF == (y >> 4u32) & 0xF,
            (x >> 0u32) & 0xF == (y >> 0u32) & 0xF,
    ;
}

/// Where each digit group of a key stands.
proof fn lemma_key_parts(id: Identifier)
    ensures
        key_of(id).len() == 35,
        forall|k: int| 0 <= k < 8 ==> key_of(id)[k] == hex8(id.w0)[k],
        forall|k: int| 0 <= k < 8 ==> key_of(id)[9 + k] == hex8(id.w1)[k],
        forall|k: int| 0 <= k < 8 ==> key_of(id)[18 + k] == hex8(id.w2)[k],
        forall|k: int| 0 <= k < 8 ==> key_of(id)[27 + k] == hex8(id.w3)[k],
{
    assert(hex8(id.w0).len() == 8);
    assert(hex8(id.w1).len() == 8);
    assert(hex8(id.w2).len() == 8);
    assert(hex8(id.w3).len() == 8);
}

/// The key codec is injective: identifiers with equal canonical keys
/// are equal.  Together with `to_key`'s postcondition (the key is a
/// function of the identifier alone, hence deterministic), no two
/// distinct identifiers ever collide in a key-indexed map.
pub proof fn lemma_to_key_injective(x: Identifier, y: Identifier)
    requires
        key_of(x) == key_of(y),
    ensures
        x == y,
{
    lemma_key_parts(x);
    lemma_key_parts(y);
    assert forall|k: int| 0 <= k < 8 implies hex8(x.w0)[k] == hex8(y.w0)[k] by {
        assert(key_of(x)[k] == hex8(x.w0)[k]);
        assert(key_of(y)[k] == hex8(y.w0)[k]);
        assert(key_of(x)[k] == key_of(y)[k]);
    }
    assert forall|k: int| 0 <= k < 8 implies hex8(x.w1)[k] == hex8(y.w1)[k] by {
        assert(key_of(x)[9 + k] == hex8(x.w1)[k]);
        assert(key_of(y)[9 + k] == hex8(y.w1)[k]);
        assert(key_of(x)[9 + k] == key_of(y)[9 + k]);
    }
    assert forall|k: int| 0 <= k < 8 implies hex8(x.w2)[k] == hex8(y.w2)[k] by {
        assert(key_of(x)[18 + k] == hex8(x.w2)[k]);
        assert(key_of(y)[18 + k] == hex8(y.w2)[k]);
        assert(key_of(x)[18 + k] == key_of(y)[18 + k]);
    }
    assert forall|k: int| 0 <= k < 8 implies hex8(x.w3)[k] == hex8(y.w3)[k] by {
        assert(key_of(x)[27 + k] == hex8(x.w3)[k]);
        assert(key_of(y)[27 + k] == hex8(y.w3)[k]);
        assert(key_of(x)[27 + k] == key_of(y)[27 + k]);
    }
    assert(hex8(x.w0) =~= hex8(y.w0));
    assert(hex8(x.w1) =~= hex8(y.w1));
    assert(hex8(x.w2) =~= hex8(y.w2));
    assert(hex8(x.w3) =~= hex8(y.w3));
    lemma_hex8_injective(x.w0, y.w0);
    lemma_hex8_injective(x.w1, y.w1);
    lemma_hex8_injective(x.w2, y.w2);
    lemma_hex8_injective(x.w3, y.w3);
}

} // verus!
