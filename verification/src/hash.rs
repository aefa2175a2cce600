//! Stable 64-bit hashing of byte strings.
//!
//! Room hashes and pub/sub channel ids must be identical on every node of the
//! cluster, so they are derived here from the bytes of the identifiers alone,
//! with no per-process seed.
//!
//! The tenant component of a room hash is not an ordinary hash: application
//! ids of at most seven bytes are mapped through an injective base-256
//! encoding (`short_app_val`), and longer ids land in a disjoint range with
//! the high bit set.  This is what makes tenant isolation provable: two
//! different applications, at least one of them short, can never produce the
//! same room hash for the same room name.

use vstd::arithmetic::div_mod::lemma_fundamental_div_mod_converse;
use vstd::prelude::*;

verus! {

/// FNV-1a 64-bit offset basis.
pub const FNV_OFFSET_BASIS: u64 = 0xcbf2_9ce4_8422_2325;

/// FNV-1a 64-bit prime.
pub const FNV_PRIME: u64 = 0x0000_0100_0000_01b3;

/// One step of the 64-bit FNV-1a hash: xor the byte in, multiply by the
/// prime modulo 2^64.
pub open spec fn fnv1a_step(h: u64, b: u8) -> u64 {
    vstd::wrapping::u64_specs::wrapping_mul(h ^ (b as u64), FNV_PRIME)
}

/// FNV-1a 64-bit hash of a byte string.
pub open spec fn fnv1a_hash(s: Seq<u8>) -> u64
    decreases s.len(),
{
    if s.len() == 0 {
        FNV_OFFSET_BASIS
    } else {
        fnv1a_step(fnv1a_hash(s.drop_last()), s.last())
    }
}

/// Computes the FNV-1a 64-bit hash of `bytes`.
pub fn fnv1a(bytes: &[u8]) -> (h: u64)
    ensures
        h == fnv1a_hash(bytes@),
{
    let mut h: u64 = FNV_OFFSET_BASIS;
    let mut i: usize = 0;
    while i < bytes.len()
        invariant
            i <= bytes@.len(),
            h == fnv1a_hash(bytes@.take(i as int)),
        decreases bytes@.len() - i,
    {
        proof {
            assert(bytes@.take(i + 1).drop_last() =~= bytes@.take(i as int));
            assert(bytes@.take(i + 1).last() == bytes@[i as int]);
        }
        h = (h ^ (bytes[i] as u64)).wrapping_mul(FNV_PRIME);
        i = i + 1;
    }
    proof {
        assert(bytes@.take(bytes@.len() as int) =~= bytes@);
    }
    h
}

/// 256 raised to `n`.
pub open spec fn pow256(n: nat) -> int
    decreases n,
{
    if n == 0 {
        1
    } else {
        256 * pow256((n - 1) as nat)
    }
}

/// Length-biased base-256 value of a byte string: the empty string maps to
/// 1, and each byte appended shifts the value left by one base-256 digit.
/// Distinct strings always get distinct values (over the unbounded
/// integers).
pub open spec fn short_app_val(s: Seq<u8>) -> int
    decreases s.len(),
{
    if s.len() == 0 {
        1
    } else {
        short_app_val(s.drop_last()) * 256 + s.last()
    }
}

/// `short_app_val` of a string of `n` bytes lies in `[256^n, 2 * 256^n)`.
pub proof fn lemma_short_app_val_range(s: Seq<u8>)
    ensures
        pow256(s.len()) <= short_app_val(s) < 2 * pow256(s.len()),
    decreases s.len(),
{
    if s.len() > 0 {
        lemma_short_app_val_range(s.drop_last());
        let v = short_app_val(s.drop_last());
        let p = pow256((s.len() - 1) as nat);
        assert(p <= v < 2 * p);
        assert(v * 256 >= p * 256) by (nonlinear_arith)
            requires
                v >= p,
        ;
        assert(v * 256 <= (2 * p - 1) * 256) by (nonlinear_arith)
            requires
                v <= 2 * p - 1,
        ;
    }
}

/// `pow256` is positive.
pub proof fn lemma_pow256_pos(n: nat)
    ensures
        0 < pow256(n),
    decreases n,
{
    if n > 0 {
        lemma_pow256_pos((n - 1) as nat);
    }
}

/// `pow256` is monotone.
pub proof fn lemma_pow256_monotone(m: nat, n: nat)
    requires
        m <= n,
    ensures
        0 < pow256(m),
        pow256(m) <= pow256(n),
    decreases n,
{
    lemma_pow256_pos(m);
    if m < n {
        lemma_pow256_monotone(m, (n - 1) as nat);
        lemma_pow256_pos((n - 1) as nat);
    }
}

/// The length-biased base-256 encoding is injective.
pub proof fn lemma_short_app_val_injective(s1: Seq<u8>, s2: Seq<u8>)
    requires
        short_app_val(s1) == short_app_val(s2),
    ensures
        s1 == s2,
    decreases s1.len(),
{
    lemma_short_app_val_range(s1);
    lemma_short_app_val_range(s2);
    if s1.len() < s2.len() {
        lemma_pow256_monotone((s1.len() + 1) as nat, s2.len());
        assert(2 * pow256(s1.len()) <= pow256((s1.len() + 1) as nat));
        assert(false);
    } else if s2.len() < s1.len() {
        lemma_pow256_monotone((s2.len() + 1) as nat, s1.len());
        assert(2 * pow256(s2.len()) <= pow256((s2.len() + 1) as nat));
        assert(false);
    } else if s1.len() == 0 {
        assert(s1 =~= s2);
    } else {
        let v = short_app_val(s1);
        lemma_fundamental_div_mod_converse(v, 256, short_app_val(s1.drop_last()), s1.last() as int);
        lemma_fundamental_div_mod_converse(v, 256, short_app_val(s2.drop_last()), s2.last() as int);
        assert(short_app_val(s1.drop_last()) == short_app_val(s2.drop_last()));
        assert(s1.last() == s2.last());
        lemma_short_app_val_injective(s1.drop_last(), s2.drop_last());
        assert(s1 =~= s1.drop_last().push(s1.last()));
        assert(s2 =~= s2.drop_last().push(s2.last()));
    }
}

/// Tenant component of a room hash.  Application ids of at most seven bytes
/// keep their injective base-256 value (which fits in 57 bits); longer ids
/// are hashed and marked with the high bit, so the two ranges never meet.
pub open spec fn app_component(app: Seq<u8>) -> u64 {
    if app.len() <= 7 {
        short_app_val(app) as u64
    } else {
        fnv1a_hash(app) | 0x8000_0000_0000_0000
    }
}

/// Computes the tenant component of a room hash.
pub fn app_component_of(app: &[u8]) -> (r: u64)
    ensures
        r == app_component(app@),
{
    if app.len() <= 7 {
        let mut v: u64 = 1;
        let mut i: usize = 0;
        while i < app.len()
            invariant
                i <= app@.len() <= 7,
                v == short_app_val(app@.take(i as int)),
                v < 0x0200_0000_0000_0000,
            decreases app@.len() - i,
        {
            proof {
                assert(app@.take(i + 1).drop_last() =~= app@.take(i as int));
                assert(app@.take(i + 1).last() == app@[i as int]);
                lemma_short_app_val_range(app@.take(i + 1));
                lemma_pow256_monotone(app@.take(i + 1).len(), 7);
                assert(pow256(7) == 0x0100_0000_0000_0000) by {
                    reveal_with_fuel(pow256, 8);
                }
            }
            v = v * 256 + (app[i] as u64);
            i = i + 1;
        }
        proof {
            assert(app@.take(app@.len() as int) =~= app@);
        }
        v
    } else {
        fnv1a(app) | 0x8000_0000_0000_0000
    }
}

/// Hash of an `(application, room name)` pair: the room name is hashed with
/// FNV-1a, the application id enters through its tenant component.  The two
/// parts are combined by xor, which cancels: for a fixed room name the map
/// from tenant component to room hash is a bijection.
pub open spec fn room_hash(app: Seq<u8>, room: Seq<u8>) -> u64 {
    app_component(app) ^ fnv1a_hash(room)
}

/// Computes the room hash of an `(application, room name)` pair.
pub fn room_hash_of(app: &[u8], room: &[u8]) -> (r: u64)
    ensures
        r == room_hash(app@, room@),
{
    app_component_of(app) ^ fnv1a(room)
}

/// Tenant isolation: two different applications, at least one of them with
/// an id of at most seven bytes, never produce the same room hash for the
/// same room name.
pub proof fn lemma_room_hash_tenant_isolation(a1: Seq<u8>, a2: Seq<u8>, room: Seq<u8>)
    requires
        a1 != a2,
        a1.len() <= 7 || a2.len() <= 7,
    ensures
        room_hash(a1, room) != room_hash(a2, room),
{
    let c1 = app_component(a1);
    let c2 = app_component(a2);
    if a1.len() <= 7 && a2.len() <= 7 {
        if short_app_val(a1) == short_app_val(a2) {
            lemma_short_app_val_injective(a1, a2);
        }
        lemma_short_app_val_range(a1);
        lemma_short_app_val_range(a2);
        lemma_pow256_monotone(a1.len(), 7);
        lemma_pow256_monotone(a2.len(), 7);
        assert(pow256(7) == 0x0100_0000_0000_0000) by {
            reveal_with_fuel(pow256, 8);
        }
        assert(c1 != c2);
    } else {
        lemma_short_app_val_range(if a1.len() <= 7 {
            a1
        } else {
            a2
        });
        lemma_pow256_monotone(if a1.len() <= 7 {
            a1.len()
        } else {
            a2.len()
        }, 7);
        assert(pow256(7) == 0x0100_0000_0000_0000) by {
            reveal_with_fuel(pow256, 8);
        }
        let short = if a1.len() <= 7 {
            c1
        } else {
            c2
        };
        let long = if a1.len() <= 7 {
            c2
        } else {
            c1
        };
        assert(short < 0x0200_0000_0000_0000);
        assert(long == (if a1.len() <= 7 {
            fnv1a_hash(a2)
        } else {
            fnv1a_hash(a1)
        }) | 0x8000_0000_0000_0000);
        assert(forall|x: u64| #[trigger] (x | 0x8000_0000_0000_0000) >= 0x8000_0000_0000_0000)
            by (bit_vector);
        assert(c1 != c2);
    }
    assert(forall|x: u64, y: u64, z: u64| x != y ==> #[trigger] (x ^ z) != #[trigger] (y ^ z))
        by (bit_vector);
}

} // verus!
