//! Little-endian integer fields of the canonical encoding, with the
//! inversion lemmas the round-trip proof rests on.

use vstd::prelude::*;

verus! {

/// Value of a little-endian byte sequence: least significant byte first.
pub open spec fn le_val(s: Seq<u8>) -> nat
    decreases s.len(),
{
    if s.len() == 0 {
        0
    } else {
        (s[0] + 256 * le_val(s.skip(1))) as nat
    }
}

/// The `k`-byte little-endian encoding of `n` (mod 256^k).
pub open spec fn le_bytes(n: nat, k: nat) -> Seq<u8>
    decreases k,
{
    if k == 0 {
        Seq::empty()
    } else {
        seq![(n % 256) as u8] + le_bytes(n / 256, (k - 1) as nat)
    }
}

pub open spec fn pow256(k: nat) -> nat
    decreases k,
{
    if k == 0 {
        1
    } else {
        256 * pow256((k - 1) as nat)
    }
}

pub proof fn lemma_le_bytes_len(n: nat, k: nat)
    ensures
        le_bytes(n, k).len() == k,
    decreases k,
{
    if k > 0 {
        lemma_le_bytes_len(n / 256, (k - 1) as nat);
    }
}

pub proof fn lemma_le_val_bound(s: Seq<u8>)
    ensures
        le_val(s) < pow256(s.len()),
    decreases s.len(),
{
    if s.len() > 0 {
        lemma_le_val_bound(s.skip(1));
        assert(le_val(s) == s[0] + 256 * le_val(s.skip(1)));
        assert(s[0] < 256);
        assert(256 * le_val(s.skip(1)) <= 256 * (pow256(s.skip(1).len()) - 1)) by (nonlinear_arith)
            requires
                le_val(s.skip(1)) <= pow256(s.skip(1).len()) - 1,
        ;
    }
}

pub proof fn lemma_pow256_mono(j: nat, k: nat)
    requires
        j <= k,
    ensures
        pow256(j) <= pow256(k),
    decreases k,
{
    if j < k && k > 0 {
        lemma_pow256_mono(j, (k - 1) as nat);
        assert(pow256((k - 1) as nat) >= 1) by {
            lemma_pow256_pos((k - 1) as nat);
        }
    }
}

pub proof fn lemma_pow256_pos(k: nat)
    ensures
        pow256(k) >= 1,
    decreases k,
{
    if k > 0 {
        lemma_pow256_pos((k - 1) as nat);
    }
}

/// Re-encoding the value of a byte sequence yields the same bytes.
pub proof fn lemma_le_bytes_of_val(s: Seq<u8>)
    ensures
        le_bytes(le_val(s), s.len()) =~= s,
    decreases s.len(),
{
    if s.len() > 0 {
        let v = le_val(s);
        let t = le_val(s.skip(1));
        assert(v == s[0] + 256 * t);
        assert(v % 256 == s[0] && v / 256 == t) by (nonlinear_arith)
            requires
                v == s[0] + 256 * t,
                0 <= s[0] < 256,
                t >= 0,
        ;
        lemma_le_bytes_of_val(s.skip(1));
        assert(le_bytes(v, s.len()) == seq![(v % 256) as u8] + le_bytes(v / 256, (s.len() - 1) as nat));
        assert(le_bytes(v / 256, (s.len() - 1) as nat) =~= s.skip(1));
    }
}

/// Appends the `k`-byte little-endian encoding of `v` to `out`.
pub fn push_le(out: &mut Vec<u8>, v: u128, k: usize)
    ensures
        final(out)@ == old(out)@ + le_bytes(v as nat, k as nat),
    decreases k,
{
    if k == 0 {
        assert(out@ =~= old(out)@ + le_bytes(v as nat, 0));
    } else {
        let b: u8 = (v % 256) as u8;
        out.push(b);
        push_le(out, v / 256, k - 1);
        assert(out@ =~= old(out)@ + le_bytes(v as nat, k as nat));
    }
}

/// Reads the `k`-byte little-endian field at `off`.
pub fn read_le(b: &Vec<u8>, off: usize, k: usize) -> (v: u128)
    requires
        off + k <= b@.len(),
        k <= 16,
    ensures
        v as nat == le_val(b@.subrange(off as int, off + k)),
    decreases k,
{
    if k == 0 {
        assert(b@.subrange(off as int, off as int) =~= Seq::empty());
        0
    } else {
        let n = b.len();
        assert(off + k <= n);
        let head = b[off];
        let rest = read_le(b, off + 1, k - 1);
        proof {
            let s = b@.subrange(off as int, off + k);
            assert(s.skip(1) =~= b@.subrange(off + 1, off + k));
            assert(le_val(s) == s[0] + 256 * le_val(s.skip(1)));
            lemma_le_val_bound(b@.subrange(off + 1, off + k));
            lemma_pow256_mono((k - 1) as nat, 15);
            assert(pow256(15) == 0x1000000000000000000000000000000) by {
                reveal_with_fuel(pow256, 16);
            }
            assert(256 * (rest as nat) <= 256 * (pow256(15) - 1)) by (nonlinear_arith)
                requires
                    rest as nat <= pow256(15) - 1,
            ;
        }
        head as u128 + 256 * rest
    }
}

} // verus!
