//! The schedules of the jump-flooding passes of the bucket fill tool: gap
//! closing and feathering each run one pass per jump length, from the
//! smallest power of two that covers the distance down to 1, halving each
//! time.

use vstd::prelude::*;

verus! {

/// How the edge of a bucket fill is smoothed.
#[derive(Clone, Copy, Debug, PartialEq, Eq, Structural)]
pub enum BucketAntialiasApproach {
    /// No smoothing.
    Disabled,
    Fxaa,
    /// Feathering over the given radius in pixels.
    Feather(u32),
}

impl BucketAntialiasApproach {
    /// The feather radius handed to the fill shader (0 unless feathering).
    pub fn feather_radius(&self) -> (r: u32)
        ensures
            r == match self {
                BucketAntialiasApproach::Feather(f) => *f,
                _ => 0,
            },
    {
        match self {
            BucketAntialiasApproach::Feather(f) => *f,
            _ => 0,
        }
    }
}

/// The parameters of one jump-flooding pass.
#[derive(Clone, Copy, Debug, PartialEq, Eq, Structural)]
pub struct JumpParams {
    pub jump: u32,
}

/// `p` is a power of two.
pub open spec fn is_power_of_two(p: nat) -> bool
    decreases p,
{
    if p == 1 {
        true
    } else if p < 1 || p % 2 == 1 {
        false
    } else {
        is_power_of_two(p / 2)
    }
}

/// `u32::next_power_of_two`: the smallest power of two at or above `n`.
pub open spec fn is_next_power_of_two(n: nat, p: nat) -> bool {
    &&& is_power_of_two(p)
    &&& p >= n
    &&& (p == 1 || p / 2 < n)
}

/// The jump lengths `m`, `m / 2`, `m / 4`, ..., down to 1.
pub open spec fn halvings(m: nat) -> Seq<u32>
    decreases m,
{
    if m == 0 {
        Seq::empty()
    } else {
        seq![m as u32] + halvings(m / 2)
    }
}

/// The smallest power of two at or above `n`, as `u32::next_power_of_two`
/// gives it (it has no `u32` value above `2^31`).
pub fn next_power_of_two(n: u32) -> (p: u32)
    requires
        n <= 0x8000_0000,
    ensures
        is_next_power_of_two(n as nat, p as nat),
{
    let mut p: u32 = 1;
    while p < n
        invariant
            is_power_of_two(p as nat),
            1 <= p <= 0x8000_0000,
            n <= 0x8000_0000,
            p == 1 || p / 2 < n,
        decreases 0x8000_0000 - p,
    {
        proof {
            assert(p < 0x8000_0000);
            assert((2 * p) as nat / 2 == p as nat);
            assert((2 * p) as nat % 2 == 0);
        }
        p = 2 * p;
        proof {
            lemma_power_of_two_bound(p as nat);
        }
    }
    p
}

/// A power of two that fits in `2^31` is at most `2^31`; any power of two
/// below `2^31` is at most `2^30`.
proof fn lemma_power_of_two_bound(p: nat)
    requires
        is_power_of_two(p),
        p <= 0x1_0000_0000,
    ensures
        p <= 0x8000_0000 || p == 0x1_0000_0000,
{
    lemma_powers_of_two_up_to(32);
    vstd::arithmetic::power2::lemma2_to64();
    lemma_power_of_two_divides(p, 0x1_0000_0000);
}

/// `2^k` is a power of two.
proof fn lemma_powers_of_two_up_to(k: nat)
    ensures
        is_power_of_two(vstd::arithmetic::power2::pow2(k)),
    decreases k,
{
    vstd::arithmetic::power2::lemma_pow2_pos(k);
    if k > 0 {
        lemma_powers_of_two_up_to((k - 1) as nat);
        vstd::arithmetic::power2::lemma_pow2_unfold(k);
        let p = vstd::arithmetic::power2::pow2(k);
        assert(p % 2 == 0 && p / 2 == vstd::arithmetic::power2::pow2((k - 1) as nat));
    } else {
        vstd::arithmetic::power2::lemma2_to64();
    }
}

/// A power of two up to `q = 2^32` divides `q`, so it is `q` or at most `q / 2`.
proof fn lemma_power_of_two_divides(p: nat, q: nat)
    requires
        is_power_of_two(p),
        is_power_of_two(q),
        p <= q,
    ensures
        p == q || p <= q / 2,
    decreases q,
{
    if p != q && q > 1 {
        if p > 1 {
            lemma_power_of_two_divides(p / 2, q / 2);
        }
    }
}

/// The jump lengths of the passes for a largest jump of `max_jump` (at
/// least one pass, of length 1, when `max_jump` is 0).
pub fn jump_schedule(max_jump: u32) -> (r: Vec<JumpParams>)
    ensures
        r@.map_values(|j: JumpParams| j.jump) == halvings(if max_jump == 0 {
            1
        } else {
            max_jump as nat
        }),
{
    let mut r: Vec<JumpParams> = Vec::new();
    let mut jump = if max_jump == 0 { 1 } else { max_jump };
    let ghost start: nat = jump as nat;
    while jump > 0
        invariant
            halvings(start) == r@.map_values(|j: JumpParams| j.jump) + halvings(jump as nat),
        decreases jump,
    {
        let ghost before = r@.map_values(|j: JumpParams| j.jump);
        r.push(JumpParams { jump });
        proof {
            assert(r@.map_values(|j: JumpParams| j.jump) =~= before.push(jump));
            assert(before + halvings(jump as nat) =~= before.push(jump) + halvings(
                (jump / 2) as nat,
            ));
        }
        jump = jump / 2;
    }
    assert(r@.map_values(|j: JumpParams| j.jump) + halvings(0) =~= r@.map_values(
        |j: JumpParams| j.jump,
    ));
    r
}

/// The passes that close gaps of up to `close_gap` pixels: none when
/// `close_gap` is 0.
pub fn close_gap_jump_schedule(close_gap: u32) -> (r: Option<Vec<JumpParams>>)
    requires
        close_gap <= 0x8000_0000,
    ensures
        close_gap == 0 ==> r is None,
        close_gap > 0 ==> (r matches Some(v) && exists|p: nat|
            is_next_power_of_two(close_gap as nat, p) && v@.map_values(|j: JumpParams| j.jump)
                == halvings(p)),
{
    if close_gap == 0 {
        return None;
    }
    let max_jump = next_power_of_two(close_gap);
    Some(jump_schedule(max_jump))
}

/// The passes that feather the fill's edge: none unless the approach is
/// feathering over a positive radius.
pub fn feather_jump_schedule(approach: BucketAntialiasApproach) -> (r: Option<Vec<JumpParams>>)
    requires
        approach.feather_bounded(),
    ensures
        match approach {
            BucketAntialiasApproach::Feather(radius) => if radius == 0 {
                r is None
            } else {
                r matches Some(v) && exists|p: nat|
                    is_next_power_of_two(radius as nat, p) && v@.map_values(
                        |j: JumpParams| j.jump,
                    ) == halvings(p)
            },
            _ => r is None,
        },
{
    match approach {
        BucketAntialiasApproach::Feather(radius) => {
            if radius == 0 {
                return None;
            }
            let max_jump = next_power_of_two(radius);
            Some(jump_schedule(max_jump))
        },
        _ => None,
    }
}

impl BucketAntialiasApproach {
    /// A feather radius whose next power of two fits in a `u32`.
    pub open spec fn feather_bounded(self) -> bool {
        match self {
            BucketAntialiasApproach::Feather(r) => r <= 0x8000_0000,
            _ => true,
        }
    }
}

/// The jump lengths start at `m`, each is half the one before (rounded
/// down), and they end at 1: a pass for every halving and no other.
pub proof fn lemma_halvings_halve_down_to_one(m: nat)
    requires
        0 < m <= 0xffff_ffff,
    ensures
        halvings(m).len() > 0,
        halvings(m)[0] == m,
        halvings(m).last() == 1,
        forall|i: int| 0 <= i < halvings(m).len() - 1 ==> #[trigger] halvings(m)[i + 1] == halvings(m)[i] / 2,
        forall|i: int| 0 <= i < halvings(m).len() ==> #[trigger] halvings(m)[i] >= 1,
    decreases m,
{
    let h = halvings(m);
    assert(h == seq![m as u32] + halvings(m / 2));
    if m / 2 > 0 {
        lemma_halvings_halve_down_to_one(m / 2);
        let t = halvings(m / 2);
        assert forall|i: int| 0 <= i < h.len() - 1 implies #[trigger] h[i + 1] == h[i] / 2 by {
            if i > 0 {
                assert(h[i] == t[i - 1]);
                assert(h[i + 1] == t[i]);
                let j = i - 1;
                assert(t[j + 1] == t[j] / 2);
            } else {
                assert(h[0] == m);
                assert(h[1] == t[0]);
                assert(t[0] == m / 2);
            }
        }
        assert forall|i: int| 0 <= i < h.len() implies #[trigger] h[i] >= 1 by {
            if i > 0 {
                assert(h[i] == t[i - 1]);
            }
        }
    } else {
        assert(halvings(m / 2) == Seq::<u32>::empty());
        assert(h =~= seq![m as u32]);
    }
}

} // verus!
