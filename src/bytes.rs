//! Big-endian integers on byte sequences.
use vstd::arithmetic::div_mod::lemma_mod_breakdown;
use vstd::prelude::*;

verus! {

/// 256 to the power `n`.
pub open spec fn pow256(n: nat) -> nat
    decreases n,
{
    if n == 0 {
        1
    } else {
        256 * pow256((n - 1) as nat)
    }
}

/// The unsigned integer that `s` spells, most significant byte first.
pub open spec fn be_value(s: Seq<u8>) -> nat
    decreases s.len(),
{
    if s.len() == 0 {
        0
    } else {
        be_value(s.drop_last()) * 256 + s.last() as nat
    }
}

/// The `n` bytes that spell `x` modulo `256^n`, most significant first.
pub open spec fn be_bytes(x: nat, n: nat) -> Seq<u8>
    decreases n,
{
    if n == 0 {
        Seq::empty()
    } else {
        be_bytes(x / 256, (n - 1) as nat).push((x % 256) as u8)
    }
}

/// The `n`-byte big-endian field of `d` that starts at `at`.
pub open spec fn be_field(d: Seq<u8>, at: int, n: int) -> nat {
    be_value(d.subrange(at, at + n))
}

pub proof fn lemma_pow256_mono(a: nat, b: nat)
    requires
        a <= b,
    ensures
        pow256(a) <= pow256(b),
    decreases b,
{
    if a < b {
        lemma_pow256_mono(a, (b - 1) as nat);
    }
}

pub proof fn lemma_be_value_bound(s: Seq<u8>)
    ensures
        be_value(s) < pow256(s.len()),
    decreases s.len(),
{
    if s.len() > 0 {
        lemma_be_value_bound(s.drop_last());
    }
}

pub broadcast proof fn lemma_be_bytes_len(x: nat, n: nat)
    ensures
        #[trigger] be_bytes(x, n).len() == n,
    decreases n,
{
    if n > 0 {
        lemma_be_bytes_len(x / 256, (n - 1) as nat);
    }
}

/// Reading back the bytes of `x` gives `x` modulo `256^n`.
pub proof fn lemma_be_value_of_bytes(x: nat, n: nat)
    ensures
        be_value(be_bytes(x, n)) == x % pow256(n),
    decreases n,
{
    if n > 0 {
        let p = pow256((n - 1) as nat);
        lemma_be_value_of_bytes(x / 256, (n - 1) as nat);
        assert(be_bytes(x, n).drop_last() =~= be_bytes(x / 256, (n - 1) as nat));
        lemma_pow256_mono(0, (n - 1) as nat);
        lemma_mod_breakdown(x as int, 256, p as int);
    }
}

/// A value below `256^n` reads back exactly from its `n` bytes.
pub proof fn lemma_be_round_trip(x: nat, n: nat)
    requires
        x < pow256(n),
    ensures
        be_value(be_bytes(x, n)) == x,
        be_bytes(x, n).len() == n,
{
    lemma_be_value_of_bytes(x, n);
    lemma_be_bytes_len(x, n);
    vstd::arithmetic::div_mod::lemma_small_mod(x, pow256(n));
}

/// Reads the `n`-byte big-endian field of `d` that starts at `at`.
pub fn read_be(d: &[u8], at: usize, n: usize) -> (r: u64)
    requires
        n <= 8,
        at + n <= d@.len(),
    ensures
        r as nat == be_field(d@, at as int, n as int),
{
    let mut v: u64 = 0;
    let mut i: usize = at;
    proof {
        assert(d@.subrange(at as int, at as int) =~= Seq::<u8>::empty());
    }
    while i - at < n
        invariant
            at <= i <= at + n,
            at + n <= d@.len(),
            n <= 8,
            v as nat == be_value(d@.subrange(at as int, i as int)),
        decreases at + n - i,
    {
        proof {
            lemma_be_value_bound(d@.subrange(at as int, i as int));
            lemma_pow256_mono((i - at) as nat, 7);
            reveal_with_fuel(pow256, 8);
            assert(d@.subrange(at as int, i + 1).drop_last() =~= d@.subrange(at as int, i as int));
        }
        v = v * 256 + d[i] as u64;
        i = i + 1;
    }
    v
}

} // verus!
