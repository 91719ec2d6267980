//! Little-endian byte-string primitives shared by the wire formats: the
//! base-256 digit model, its round-trip lemmas, and the executable readers
//! and writers proved against it.

use vstd::prelude::*;
use vstd::arithmetic::div_mod::{
    lemma_div_denominator, lemma_div_is_ordered, lemma_fundamental_div_mod_converse_div,
    lemma_fundamental_div_mod_converse_mod,
};
use vstd::slice::slice_index_get;

use crate::schedule::MAX_VESTINGS;
use crate::state::LinearVesting;

verus! {

/// `256^n`.
pub open spec fn pow256(n: nat) -> int
    decreases n,
{
    if n == 0 {
        1
    } else {
        256 * pow256((n - 1) as nat)
    }
}

/// The `n` low little-endian base-256 digits of `x`.
pub open spec fn le_bytes_n(x: int, n: nat) -> Seq<u8>
    decreases n,
{
    if n == 0 {
        Seq::empty()
    } else {
        seq![(x % 256) as u8] + le_bytes_n(x / 256, (n - 1) as nat)
    }
}

/// The eight little-endian bytes of a 64-bit integer.
pub open spec fn u64_le_bytes(x: u64) -> Seq<u8> {
    le_bytes_n(x as int, 8)
}

/// The value a little-endian byte string denotes.
pub open spec fn le_val(s: Seq<u8>) -> int
    decreases s.len(),
{
    if s.len() == 0 {
        0
    } else {
        s[0] + 256 * le_val(s.drop_first())
    }
}

pub proof fn lemma_pow256_pos(n: nat)
    ensures
        pow256(n) >= 1,
    decreases n,
{
    if n > 0 {
        lemma_pow256_pos((n - 1) as nat);
    }
}

/// Extending the digit string by one appends the next digit.
pub proof fn lemma_le_bytes_n_snoc(x: int, n: nat)
    requires
        x >= 0,
    ensures
        le_bytes_n(x, n + 1) == le_bytes_n(x, n).push(((x / pow256(n)) % 256) as u8),
    decreases n,
{
    lemma_pow256_pos(n);
    if n == 0 {
        assert(le_bytes_n(x / 256, 0) =~= Seq::<u8>::empty());
        assert(le_bytes_n(x, 0) =~= Seq::<u8>::empty());
        assert(le_bytes_n(x, 1) =~= le_bytes_n(x, 0).push(((x / pow256(0)) % 256) as u8));
    } else {
        lemma_pow256_pos((n - 1) as nat);
        lemma_div_is_ordered(0, x, 256);
        lemma_le_bytes_n_snoc(x / 256, (n - 1) as nat);
        lemma_div_denominator(x, 256, pow256((n - 1) as nat));
        assert(le_bytes_n(x, n + 1) =~= le_bytes_n(x, n).push(((x / pow256(n)) % 256) as u8));
    }
}

/// Appending a byte raises its place value by the string's length.
pub proof fn lemma_le_val_push(s: Seq<u8>, b: u8)
    ensures
        le_val(s.push(b)) == le_val(s) + b * pow256(s.len()),
    decreases s.len(),
{
    if s.len() == 0 {
        assert(s.push(b)[0] == b);
        assert(s.push(b).drop_first() =~= Seq::<u8>::empty());
        assert(le_val(Seq::<u8>::empty()) == 0);
        assert(le_val(s.push(b)) == b);
        assert(b * 1 == b) by (nonlinear_arith);
    } else {
        assert(s.push(b)[0] == s[0]);
        assert(s.push(b).drop_first() =~= s.drop_first().push(b));
        lemma_le_val_push(s.drop_first(), b);
        let p = pow256((s.len() - 1) as nat);
        assert(256 * (le_val(s.drop_first()) + b * p) == 256 * le_val(s.drop_first()) + b * (256
            * p)) by (nonlinear_arith);
    }
}

/// A byte string of length `n` denotes a value below `256^n`.
pub proof fn lemma_le_val_bound(s: Seq<u8>)
    ensures
        0 <= le_val(s) < pow256(s.len()),
    decreases s.len(),
{
    if s.len() > 0 {
        lemma_le_val_bound(s.drop_first());
        let p = pow256((s.len() - 1) as nat);
        assert(256 * le_val(s.drop_first()) <= 256 * (p - 1)) by (nonlinear_arith)
            requires le_val(s.drop_first()) <= p - 1;
    }
}

/// Reading the digits of a denoted value gives back the byte string.
pub proof fn lemma_le_digits_identity(s: Seq<u8>)
    ensures
        le_bytes_n(le_val(s), s.len()) == s,
    decreases s.len(),
{
    if s.len() > 0 {
        lemma_le_val_bound(s.drop_first());
        lemma_fundamental_div_mod_converse_mod(le_val(s), 256, le_val(s.drop_first()), s[0] as int);
        lemma_fundamental_div_mod_converse_div(le_val(s), 256, le_val(s.drop_first()), s[0] as int);
        lemma_le_digits_identity(s.drop_first());
        assert(le_bytes_n(le_val(s), s.len()) =~= s);
    } else {
        assert(le_bytes_n(le_val(s), s.len()) =~= s);
    }
}

/// Appends the eight little-endian bytes of `x`.
pub(crate) fn push_u64_le(out: &mut Vec<u8>, x: u64)
    ensures
        final(out)@ == old(out)@ + u64_le_bytes(x),
{
    let ghost base = old(out)@;
    let mut v: u64 = x;
    let mut i: usize = 0;
    proof {
        assert(out@ =~= base + le_bytes_n(x as int, 0));
    }
    while i < 8
        invariant
            i <= 8,
            v == (x as int) / pow256(i as nat),
            out@ == base + le_bytes_n(x as int, i as nat),
        decreases 8 - i,
    {
        proof {
            lemma_pow256_pos(i as nat);
            lemma_le_bytes_n_snoc(x as int, i as nat);
            lemma_div_denominator(x as int, pow256(i as nat), 256);
            assert(pow256(i as nat) * 256 == pow256((i + 1) as nat)) by (nonlinear_arith)
                requires pow256((i + 1) as nat) == 256 * pow256(i as nat);
            assert((base + le_bytes_n(x as int, i as nat)).push(((v as int) % 256) as u8) =~= base
                + le_bytes_n(x as int, i as nat).push(((v as int) % 256) as u8));
        }
        out.push((v % 256) as u8);
        v = v / 256;
        i = i + 1;
    }
}

/// Reads the 64-bit value the eight bytes at `pos` denote.
pub(crate) fn read_u64_le(bytes: &[u8], pos: usize) -> (r: u64)
    requires
        pos + 8 <= bytes@.len(),
    ensures
        u64_le_bytes(r) == bytes@.subrange(pos as int, pos as int + 8),
        r == le_val(bytes@.subrange(pos as int, pos as int + 8)),
{
    let n_bytes = bytes.len();
    let ghost whole = bytes@.subrange(pos as int, pos as int + 8);
    let mut r: u64 = 0;
    let mut mult: u64 = 1;
    let mut i: usize = 0;
    proof {
        assert(whole.subrange(0, 0) =~= Seq::<u8>::empty());
    }
    while i < 8
        invariant
            i <= 8,
            pos + 8 <= bytes@.len(),
            bytes@.len() == n_bytes,
            whole == bytes@.subrange(pos as int, pos as int + 8),
            r == le_val(whole.subrange(0, i as int)),
            i < 8 ==> mult == pow256(i as nat),
        decreases 8 - i,
    {
        let b = *slice_index_get(bytes, pos + i);
        proof {
            lemma_pow256_pos(i as nat);
            lemma_le_val_bound(whole.subrange(0, i as int));
            assert(whole.subrange(0, i as int).len() == i);
            assert(whole.subrange(0, i as int + 1) =~= whole.subrange(0, i as int).push(
                whole[i as int],
            ));
            assert(whole[i as int] == bytes@[pos + i]);
            lemma_le_val_push(whole.subrange(0, i as int), b);
            lemma_le_val_bound(whole.subrange(0, i as int + 1));
            assert(pow256(8) == 0x1_0000_0000_0000_0000) by {
                reveal_with_fuel(pow256, 9);
            }
            assert(pow256((i + 1) as nat) == 256 * pow256(i as nat));
            lemma_pow256_le(i as nat, 7);
            assert((b as int) * pow256(i as nat) <= 255 * pow256(7)) by (nonlinear_arith)
                requires b <= 255, 1 <= pow256(i as nat) <= pow256(7);
            assert(pow256(7) == 0x100_0000_0000_0000) by {
                reveal_with_fuel(pow256, 8);
            }
        }
        r = r + b as u64 * mult;
        if i < 7 {
            proof {
                lemma_pow256_le(i as nat, 6);
                assert(pow256(6) == 0x1_0000_0000_0000) by {
                    reveal_with_fuel(pow256, 7);
                }
            }
            mult = mult * 256;
        }
        i = i + 1;
    }
    proof {
        assert(whole.subrange(0, 8) =~= whole);
        lemma_le_digits_identity(whole);
    }
    r
}

pub proof fn lemma_pow256_le(m: nat, n: nat)
    requires
        m <= n,
    ensures
        pow256(m) <= pow256(n),
    decreases n,
{
    lemma_pow256_pos(m);
    if m < n {
        lemma_pow256_le(m, (n - 1) as nat);
        lemma_pow256_pos((n - 1) as nat);
    }
}

/// The 25 bytes of one (token amount, tranche) slot.
pub open spec fn spec_encode_pair(pair: (u64, LinearVesting)) -> Seq<u8> {
    u64_le_bytes(pair.0) + u64_le_bytes(pair.1.start_time) + u64_le_bytes(pair.1.unlock_period)
        + seq![pair.1.unlock_count]
}

/// The slots of a pair list, in order.
pub open spec fn spec_encode_pairs(pairs: Seq<(u64, LinearVesting)>) -> Seq<u8>
    decreases pairs.len(),
{
    if pairs.len() == 0 {
        Seq::empty()
    } else {
        spec_encode_pair(pairs[0]) + spec_encode_pairs(pairs.drop_first())
    }
}

pub proof fn lemma_encode_pairs_push(pairs: Seq<(u64, LinearVesting)>, pair: (u64, LinearVesting))
    ensures
        spec_encode_pairs(pairs.push(pair)) == spec_encode_pairs(pairs) + spec_encode_pair(pair),
    decreases pairs.len(),
{
    if pairs.len() == 0 {
        assert(pairs.push(pair)[0] == pair);
        assert(pairs.push(pair).drop_first() =~= Seq::<(u64, LinearVesting)>::empty());
        assert(spec_encode_pairs(Seq::<(u64, LinearVesting)>::empty()) == Seq::<u8>::empty());
        assert(spec_encode_pairs(pairs.push(pair)) == spec_encode_pair(pair) + Seq::<u8>::empty());
        assert(spec_encode_pairs(pairs) == Seq::<u8>::empty());
        assert(spec_encode_pair(pair) + Seq::<u8>::empty() =~= Seq::<u8>::empty()
            + spec_encode_pair(pair));
    } else {
        assert(pairs.push(pair)[0] == pairs[0]);
        assert(pairs.push(pair).drop_first() =~= pairs.drop_first().push(pair));
        lemma_encode_pairs_push(pairs.drop_first(), pair);
        assert(spec_encode_pairs(pairs.push(pair)) == spec_encode_pair(pairs[0]) + (
        spec_encode_pairs(pairs.drop_first()) + spec_encode_pair(pair)));
        assert(spec_encode_pair(pairs[0]) + (spec_encode_pairs(pairs.drop_first())
            + spec_encode_pair(pair)) =~= (spec_encode_pair(pairs[0]) + spec_encode_pairs(
        pairs.drop_first())) + spec_encode_pair(pair));
    }
}

/// Appends the 25-byte slots of every pair of the list.
pub(crate) fn push_pairs(out: &mut Vec<u8>, pairs: &Vec<(u64, LinearVesting)>)
    ensures
        final(out)@ == old(out)@ + spec_encode_pairs(pairs@),
{
    let ghost base = old(out)@;
    let mut i: usize = 0;
    proof {
        assert(out@ =~= base + spec_encode_pairs(pairs@.take(0)));
    }
    while i < pairs.len()
        invariant
            i <= pairs@.len(),
            out@ == base + spec_encode_pairs(pairs@.take(i as int)),
        decreases pairs@.len() - i,
    {
        let pair = pairs[i];
        push_u64_le(out, pair.0);
        push_u64_le(out, pair.1.start_time);
        push_u64_le(out, pair.1.unlock_period);
        out.push(pair.1.unlock_count);
        proof {
            assert(pairs@.take(i as int + 1) =~= pairs@.take(i as int).push(pairs@[i as int]));
            lemma_encode_pairs_push(pairs@.take(i as int), pairs@[i as int]);
            assert(out@ =~= base + spec_encode_pairs(pairs@.take(i as int + 1)));
        }
        i = i + 1;
    }
    proof {
        assert(pairs@.take(pairs@.len() as int) =~= pairs@);
    }
}

/// Reads the 16 pair slots that start at `pos`.
pub(crate) fn read_pairs(bytes: &[u8], pos: usize) -> (r: Vec<(u64, LinearVesting)>)
    requires
        pos + 25 * MAX_VESTINGS <= bytes@.len(),
    ensures
        r@.len() == MAX_VESTINGS,
        spec_encode_pairs(r@) == bytes@.subrange(pos as int, pos as int + 25 * MAX_VESTINGS),
{
    let n_bytes = bytes.len();
    let mut out: Vec<(u64, LinearVesting)> = Vec::new();
    let mut i: usize = 0;
    proof {
        assert(spec_encode_pairs(out@) =~= bytes@.subrange(pos as int, pos as int));
    }
    while i < MAX_VESTINGS
        invariant
            i <= MAX_VESTINGS,
            pos + 25 * MAX_VESTINGS <= bytes@.len(),
            bytes@.len() == n_bytes,
            out@.len() == i,
            spec_encode_pairs(out@) == bytes@.subrange(pos as int, pos as int + 25 * i),
        decreases MAX_VESTINGS - i,
    {
        let at = pos + 25 * i;
        let amount = read_u64_le(bytes, at);
        let start_time = read_u64_le(bytes, at + 8);
        let unlock_period = read_u64_le(bytes, at + 16);
        let unlock_count = *slice_index_get(bytes, at + 24);
        let pair = (amount, LinearVesting { start_time, unlock_period, unlock_count });
        let ghost prefix = out@;
        out.push(pair);
        proof {
            lemma_encode_pairs_push(prefix, pair);
            assert(spec_encode_pair(pair) =~= bytes@.subrange(at as int, at as int + 25));
            assert(spec_encode_pairs(out@) =~= bytes@.subrange(pos as int, pos as int + 25 * (
            i as int + 1)));
        }
        i = i + 1;
    }
    out
}

} // verus!
