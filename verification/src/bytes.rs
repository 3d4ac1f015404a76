use vstd::arithmetic::div_mod;
use vstd::prelude::*;
use vstd::slice::slice_subrange;
use vstd::slice::slice_to_vec;

verus! {

/// The four bytes of `n` in little-endian order, dropping whatever does not fit in 32 bits.
pub open spec fn le_bytes(n: nat) -> Seq<u8> {
    seq![
        (n % 256) as u8,
        ((n / 256) % 256) as u8,
        ((n / 65536) % 256) as u8,
        ((n / 16777216) % 256) as u8,
    ]
}

/// The number that four bytes stand for in little-endian order.
pub open spec fn le_value(b: Seq<u8>) -> nat {
    (b[0] + 256 * b[1] + 65536 * b[2] + 16777216 * b[3]) as nat
}

/// A run of `n` zero bytes.
pub open spec fn zeros(n: nat) -> Seq<u8> {
    Seq::new(n, |i: int| 0u8)
}

/// The four bytes of a number are worth 1, 256, 65536 and 16777216 times themselves, and together
/// the number's low 32 bits; and four bytes are worth the same when they are read.
pub proof fn law_le_bytes_weigh(n: nat, b: Seq<u8>)
    ensures
        le_bytes(n).len() == 4,
        le_bytes(n)[0] + 256 * le_bytes(n)[1] + 65536 * le_bytes(n)[2] + 16777216 * le_bytes(n)[3]
            == n % 0x1_0000_0000,
        le_value(b) == b[0] + 256 * b[1] + 65536 * b[2] + 16777216 * b[3],
{
    let x = n as int;
    let q1 = x / 256;
    let q2 = x / 65536;
    let q3 = x / 16777216;
    let q4 = x / 0x1_0000_0000;
    div_mod::lemma_div_denominator(x, 256, 256);
    div_mod::lemma_div_denominator(x, 65536, 256);
    div_mod::lemma_div_denominator(x, 16777216, 256);
    assert(x == 256 * q1 + x % 256);
    assert(q1 == 256 * q2 + q1 % 256);
    assert(q2 == 256 * q3 + q2 % 256);
    assert(q3 == 256 * q4 + q3 % 256);
    assert(x == 0x1_0000_0000 * q4 + x % 0x1_0000_0000);
}

/// A run of zeros has the length it is given, and nothing but zeros.
pub proof fn law_zeros(n: nat, i: int)
    ensures
        zeros(n).len() == n,
        0 <= i < n ==> zeros(n)[i] == 0,
{
}

/// Encoding a 32-bit number and decoding the bytes gives the number back.
pub proof fn law_le_round_trip(n: u32)
    ensures
        le_value(le_bytes(n as nat)) == n,
{
}

/// Decoding four bytes and encoding the number gives the bytes back.
pub proof fn law_le_bytes_of_value(b: Seq<u8>)
    requires
        b.len() == 4,
    ensures
        le_bytes(le_value(b)) == b,
        le_value(b) <= u32::MAX,
{
    let v = le_value(b);
    let (b0, b1, b2, b3) = (b[0] as nat, b[1] as nat, b[2] as nat, b[3] as nat);
    let h1 = b1 + 256 * b2 + 65536 * b3;
    let h2 = b2 + 256 * b3;
    assert(v % 256 == b0 && v / 256 == h1) by {
        assert(v == b0 + 256 * h1);
    }
    assert(h1 % 256 == b1 && h1 / 256 == h2) by {
        assert(h1 == b1 + 256 * h2);
    }
    assert(h2 % 256 == b2 && h2 / 256 == b3);
    assert(v / 65536 == h2);
    assert(v / 16777216 == b3);
    assert(le_bytes(v) =~= b);
}

/// Little-endian encoding of the low 32 bits of `n`.
pub fn to_le(n: usize) -> (r: [u8; 4])
    ensures
        r@ == le_bytes(n as nat),
{
    let r: [u8; 4] = [
        (n % 256) as u8,
        ((n / 256) % 256) as u8,
        ((n / 65536) % 256) as u8,
        ((n / 16777216) % 256) as u8,
    ];
    assert(r@ =~= le_bytes(n as nat));
    r
}

/// The number held by four little-endian bytes.
pub fn from_le(b: &[u8]) -> (r: u32)
    requires
        b@.len() == 4,
    ensures
        r == le_value(b@),
{
    b[0] as u32 + 256 * (b[1] as u32) + 65536 * (b[2] as u32) + 16777216 * (b[3] as u32)
}

/// Appends `tail` to `v`.
pub fn append_bytes(v: &mut Vec<u8>, tail: &[u8])
    ensures
        final(v)@ == old(v)@ + tail@,
{
    v.extend_from_slice(tail);
    assert(v@ =~= old(v)@ + tail@);
}

/// A copy of `b[from..to]`.
pub fn copy_range(b: &[u8], from: usize, to: usize) -> (r: Vec<u8>)
    requires
        from <= to <= b@.len(),
    ensures
        r@ == b@.subrange(from as int, to as int),
{
    slice_to_vec(slice_subrange(b, from, to))
}

/// The sixteen bytes of `b` that start at `from`.
pub fn sixteen(b: &[u8], from: usize) -> (r: [u8; 16])
    requires
        from + 16 <= b@.len(),
    ensures
        r@ == b@.subrange(from as int, from + 16),
{
    let mut r: [u8; 16] = [0; 16];
    let mut i: usize = 0;
    while i < 16
        invariant
            i <= 16,
            from + 16 <= b.len(),
            forall|j: int| 0 <= j < i ==> r@[j] == b@[from + j],
        decreases 16 - i,
    {
        r[i] = b[from + i];
        i = i + 1;
    }
    assert(r@ =~= b@.subrange(from as int, from + 16));
    r
}

/// Whether two byte strings are the same.
pub fn same_bytes(a: &[u8], b: &[u8]) -> (r: bool)
    ensures
        r == (a@ == b@),
{
    if a.len() != b.len() {
        return false;
    }
    let mut i: usize = 0;
    while i < a.len()
        invariant
            a@.len() == b@.len(),
            i <= a@.len(),
            forall|j: int| 0 <= j < i ==> a@[j] == b@[j],
        decreases a@.len() - i,
    {
        if a[i] != b[i] {
            return false;
        }
        i = i + 1;
    }
    assert(a@ =~= b@);
    true
}

/// A vector of `n` zero bytes.
pub fn zero_vec(n: usize) -> (r: Vec<u8>)
    ensures
        r@ == zeros(n as nat),
{
    let r: Vec<u8> = vec![0u8; n];
    assert(r@ =~= zeros(n as nat));
    r
}

} // verus!
