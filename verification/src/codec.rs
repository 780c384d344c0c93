//! Byte-order codecs used against the foreign process and the telemetry wire.
//!
//! Telemetry frames and the foreign structure's fields are big-endian 32-bit
//! words; pointers in the foreign dispatch table, and the absolute address
//! embedded in a detour's jump sequence, are little-endian 64-bit words.

use vstd::prelude::*;

verus! {

/// 256 to the power `n`.
pub open spec fn pow256(n: nat) -> nat
    decreases n,
{
    if n == 0 {
        1
    } else {
        256 * pow256((n - 1) as nat)
    }
}

pub proof fn lemma_pow256_pos(n: nat)
    ensures
        pow256(n) >= 1,
    decreases n,
{
    if n > 0 {
        lemma_pow256_pos((n - 1) as nat);
    }
}

pub proof fn lemma_pow256_mono(a: nat, b: nat)
    requires
        a <= b,
    ensures
        pow256(a) <= pow256(b),
    decreases b,
{
    if a < b {
        lemma_pow256_mono(a, (b - 1) as nat);
        lemma_pow256_pos((b - 1) as nat);
    }
}

pub proof fn lemma_pow256_64()
    ensures
        pow256(8) == 0x1_0000_0000_0000_0000,
{
    assert(pow256(0) == 1);
    assert(pow256(1) == 256);
    assert(pow256(2) == 0x1_0000);
    assert(pow256(3) == 0x100_0000);
    assert(pow256(4) == 0x1_0000_0000);
    assert(pow256(5) == 0x100_0000_0000);
    assert(pow256(6) == 0x1_0000_0000_0000);
    assert(pow256(7) == 0x100_0000_0000_0000);
    assert(pow256(8) == 0x1_0000_0000_0000_0000);
}

/// The value of `s` read as a little-endian base-256 number.
pub open spec fn le_val(s: Seq<u8>) -> nat
    decreases s.len(),
{
    if s.len() == 0 {
        0
    } else {
        (s[0] + 256 * le_val(s.drop_first())) as nat
    }
}

pub proof fn lemma_le_val_bound(s: Seq<u8>)
    ensures
        le_val(s) < pow256(s.len()),
    decreases s.len(),
{
    if s.len() > 0 {
        lemma_le_val_bound(s.drop_first());
    }
}

pub proof fn lemma_le_val_push(s: Seq<u8>, x: u8)
    ensures
        le_val(s.push(x)) == le_val(s) + pow256(s.len()) * x,
    decreases s.len(),
{
    if s.len() == 0 {
        assert(s.push(x).drop_first() =~= Seq::<u8>::empty());
        assert(s.push(x)[0] == x);
        assert(le_val(Seq::<u8>::empty()) == 0);
        assert(le_val(s.push(x)) == x);
        assert(pow256(0) == 1);
    } else {
        assert(s.push(x).drop_first() =~= s.drop_first().push(x));
        lemma_le_val_push(s.drop_first(), x);
        let p = pow256((s.len() - 1) as nat);
        assert(le_val(s.push(x)) == s[0] + 256 * le_val(s.drop_first().push(x)));
        assert(le_val(s.drop_first().push(x)) == le_val(s.drop_first()) + p * x);
        assert(256 * (le_val(s.drop_first()) + p * x) == 256 * le_val(s.drop_first()) + 256 * (p
            * x)) by (nonlinear_arith);
        assert(256 * (p * x) == (256 * p) * x) by (nonlinear_arith);
        assert(pow256(s.len()) == 256 * p);
    }
}

/// The first 4 bytes of `s` read as a big-endian 32-bit word.
pub open spec fn be32(s: Seq<u8>) -> u32 {
    (s[0] * 0x100_0000 + s[1] * 0x1_0000 + s[2] * 0x100 + s[3]) as u32
}

/// The big-endian encoding of `w` as 4 bytes.
pub open spec fn be32_bytes(w: u32) -> Seq<u8> {
    seq![
        (w / 0x100_0000) as u8,
        ((w / 0x1_0000) % 0x100) as u8,
        ((w / 0x100) % 0x100) as u8,
        (w % 0x100) as u8,
    ]
}

/// Encoding then decoding a 32-bit word is the identity.
pub proof fn lemma_be32_round_trip(w: u32)
    ensures
        be32(be32_bytes(w)) == w,
{
    let s = be32_bytes(w);
    assert(s[0] == w / 0x100_0000);
    assert(w == 0x100_0000 * (w / 0x100_0000) + 0x1_0000 * ((w / 0x1_0000) % 0x100) + 0x100 * ((w
        / 0x100) % 0x100) + w % 0x100) by (nonlinear_arith);
}

/// Decoding then encoding 4 bytes is the identity.
pub proof fn lemma_be32_bytes_of_val(s: Seq<u8>)
    requires
        s.len() == 4,
    ensures
        be32_bytes(be32(s)) == s,
{
    let w = be32(s);
    assert(w / 0x100_0000 == s[0] && (w / 0x1_0000) % 0x100 == s[1] && (w / 0x100) % 0x100 == s[2]
        && w % 0x100 == s[3]) by (nonlinear_arith)
        requires
            w == s[0] * 0x100_0000 + s[1] * 0x1_0000 + s[2] * 0x100 + s[3],
            0 <= s[0] < 256 && 0 <= s[1] < 256 && 0 <= s[2] < 256 && 0 <= s[3] < 256,
    ;
    assert(be32_bytes(w) =~= s);
}

/// Read the 4 bytes at `off` as a big-endian 32-bit word.
pub fn read_be32(b: &Vec<u8>, off: usize) -> (r: u32)
    requires
        off + 4 <= b@.len(),
    ensures
        r == be32(b@.subrange(off as int, off + 4)),
{
    let n = b.len();
    assert(off + 4 <= n);
    let r = (b[off] as u32) * 0x100_0000 + (b[off + 1] as u32) * 0x1_0000 + (b[off + 2] as u32)
        * 0x100 + (b[off + 3] as u32);
    proof {
        let s = b@.subrange(off as int, off + 4);
        assert(s[0] == b@[off as int] && s[1] == b@[off + 1] && s[2] == b@[off + 2] && s[3] == b@[
            off + 3]);
    }
    r
}

/// Encode `w` as 4 big-endian bytes.
pub fn write_be32(w: u32) -> (r: Vec<u8>)
    ensures
        r@ == be32_bytes(w),
{
    let mut r: Vec<u8> = Vec::new();
    r.push((w / 0x100_0000) as u8);
    r.push(((w / 0x1_0000) % 0x100) as u8);
    r.push(((w / 0x100) % 0x100) as u8);
    r.push((w % 0x100) as u8);
    proof {
        assert(w / 0x100_0000 < 0x100) by (nonlinear_arith);
        assert(r@ =~= be32_bytes(w));
    }
    r
}

/// Read 8 bytes as a little-endian 64-bit word.
pub fn read_u64_le(b: &Vec<u8>) -> (r: u64)
    requires
        b@.len() == 8,
    ensures
        r == le_val(b@),
{
    let mut acc: u64 = 0;
    let mut i: usize = 8;
    while i > 0
        invariant
            b@.len() == 8,
            i <= 8,
            acc == le_val(b@.subrange(i as int, 8)),
        decreases i,
    {
        proof {
            let tail = b@.subrange(i - 1, 8);
            assert(tail.drop_first() =~= b@.subrange(i as int, 8));
            lemma_le_val_bound(b@.subrange(i as int, 8));
            lemma_pow256_mono((8 - i) as nat, 7);
            lemma_pow256_64();
            assert(pow256(7) == 0x100_0000_0000_0000);
        }
        i = i - 1;
        acc = acc * 256 + (b[i] as u64);
    }
    proof {
        assert(b@.subrange(0, 8) =~= b@);
    }
    acc
}

/// Encode `v` as 8 little-endian bytes.
pub fn write_u64_le(v: u64) -> (r: Vec<u8>)
    ensures
        r@.len() == 8,
        le_val(r@) == v,
{
    let mut r: Vec<u8> = Vec::new();
    let mut rest: u64 = v;
    let mut i: usize = 0;
    proof {
        assert(pow256(0) == 1);
        assert(v as nat / 1 == v);
    }
    while i < 8
        invariant
            i <= 8,
            r@.len() == i as nat,
            rest == v as nat / pow256(i as nat),
            le_val(r@) + pow256(i as nat) * rest == v,
        decreases 8 - i,
    {
        let b = (rest % 256) as u8;
        proof {
            lemma_le_val_push(r@, b);
            let p = pow256(i as nat);
            lemma_pow256_pos(i as nat);
            assert(rest == 256 * (rest / 256) + rest % 256);
            assert(p * rest == p * (rest % 256) + 256 * p * (rest / 256)) by (nonlinear_arith)
                requires
                    rest == 256 * (rest / 256) + rest % 256,
            ;
            vstd::arithmetic::div_mod::lemma_div_denominator(v as int, p as int, 256);
            assert(p * 256 == 256 * p);
        }
        r.push(b);
        rest = rest / 256;
        i = i + 1;
    }
    proof {
        lemma_pow256_64();
        vstd::arithmetic::div_mod::lemma_basic_div(v as int, 0x1_0000_0000_0000_0000);
        assert(rest == 0);
        assert(pow256(8) * 0 == 0) by (nonlinear_arith);
        assert(le_val(r@) == v);
    }
    r
}

} // verus!
