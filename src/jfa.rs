//! Jump-flood scheduling: the step-size sequence and the ping-pong pass plan that turns an
//! occupancy texture into a distance field.

use crate::config::sat_u32;
use vstd::arithmetic::div_mod::lemma_fundamental_div_mod;
use vstd::arithmetic::div_mod::lemma_fundamental_div_mod_converse;
use vstd::prelude::*;

verus! {

/// Edge length of the square workgroup tile of every jump-flood pass.
pub const JFA_TILE: u32 = 16;

/// `r` is `sqrt(n)` rounded to the nearest integer (no ties are possible on integers).
pub open spec fn is_rounded_sqrt(r: int, n: int) -> bool {
    &&& r >= 0
    &&& 4 * n < (2 * r + 1) * (2 * r + 1)
    &&& (r == 0 || (2 * r - 1) * (2 * r - 1) <= 4 * n)
}

/// First step of the flood on a `w` by `h` target: the rounded length of the diagonal,
/// saturated at `u32::MAX`.
pub open spec fn initial_step_spec(w: u32, h: u32) -> nat {
    sat_u32((choose|r: int| #[trigger] is_rounded_sqrt(r, w * w + h * h)) as nat)
}

/// Steps from `s` on: halve with integer division down to 1, then one more pass at 1.
pub open spec fn halving_from(s: nat) -> Seq<nat>
    decreases s,
{
    if s <= 1 {
        seq![1nat, 1nat]
    } else {
        seq![s].add(halving_from(s / 2))
    }
}

/// Ceiling of `n / d` on machine integers.
pub open spec fn div_ceil_spec(n: nat, d: nat) -> nat
    recommends
        d > 0,
{
    ((n + d - 1) / (d as int)) as nat
}

/// `floor(sqrt(n))` by bisection.
fn isqrt(n: u128) -> (r: u64)
    requires
        n < 0x10_0000_0000_0000_0000,
    ensures
        r * r <= n < (r + 1) * (r + 1),
        r < 0x10_0000_0000,
{
    let mut lo: u64 = 0;
    let mut hi: u64 = 0x10_0000_0000;
    assert(hi * hi > n) by (nonlinear_arith)
        requires
            hi == 0x10_0000_0000,
            n < 0x10_0000_0000_0000_0000,
    ;
    while hi - lo > 1
        invariant
            lo < hi <= 0x10_0000_0000,
            lo * lo <= n,
            n < hi * hi,
        decreases hi - lo,
    {
        let mid: u64 = lo + (hi - lo) / 2;
        assert(mid * mid <= 0x10_0000_0000 * 0x10_0000_0000) by (nonlinear_arith)
            requires
                mid <= 0x10_0000_0000,
        ;
        if (mid as u128) * (mid as u128) <= n {
            lo = mid;
        } else {
            hi = mid;
        }
    }
    lo
}

proof fn lemma_rounded_sqrt_unique(a: int, b: int, n: int)
    requires
        is_rounded_sqrt(a, n),
        is_rounded_sqrt(b, n),
    ensures
        a == b,
{
    if a < b {
        assert(false) by (nonlinear_arith)
            requires
                is_rounded_sqrt(a, n),
                is_rounded_sqrt(b, n),
                a < b,
        ;
    } else if b < a {
        assert(false) by (nonlinear_arith)
            requires
                is_rounded_sqrt(a, n),
                is_rounded_sqrt(b, n),
                b < a,
        ;
    }
}

/// The first jump-flood step for a `w` by `h` target.
pub fn initial_step(w: u32, h: u32) -> (r: u32)
    ensures
        r == initial_step_spec(w, h),
        r < u32::MAX ==> is_rounded_sqrt(r as int, w * w + h * h),
        r == u32::MAX ==> exists|d: int| d >= u32::MAX && #[trigger] is_rounded_sqrt(d, w * w + h * h),
{
    assert(w * w + h * h <= 2 * (u32::MAX as int) * (u32::MAX as int)) by (nonlinear_arith)
        requires
            w <= u32::MAX,
            h <= u32::MAX,
    ;
    let n: u128 = (w as u128) * (w as u128) + (h as u128) * (h as u128);
    let t = isqrt(4 * n);
    let r: u64 = (t + 1) / 2;
    proof {
        assert(is_rounded_sqrt(r as int, n as int)) by (nonlinear_arith)
            requires
                t * t <= 4 * n < (t + 1) * (t + 1),
                r == (t + 1) / 2,
        ;
        let c = choose|x: int| #[trigger] is_rounded_sqrt(x, w * w + h * h);
        assert(is_rounded_sqrt(r as int, w * w + h * h));
        lemma_rounded_sqrt_unique(c, r as int, w * w + h * h);
    }
    if r > u32::MAX as u64 {
        u32::MAX
    } else {
        r as u32
    }
}

/// The values of a `u32` sequence as naturals.
pub open spec fn nat_seq(v: Seq<u32>) -> Seq<nat> {
    v.map_values(|x: u32| x as nat)
}

/// Shape of a step schedule: it opens with `s`, halves with integer division at every pass
/// but the last, and closes with two passes at step 1.
pub proof fn lemma_halving_shape(s: nat)
    requires
        s >= 1,
    ensures
        halving_from(s).len() >= 2,
        halving_from(s)[0] == s,
        halving_from(s)[halving_from(s).len() - 1] == 1,
        halving_from(s)[halving_from(s).len() - 2] == 1,
        forall|k: int|
            0 <= k < halving_from(s).len() - 2 ==> #[trigger] halving_from(s)[k + 1]
                == halving_from(s)[k] / 2 && halving_from(s)[k + 1] < halving_from(s)[k],
        forall|k: int| 0 <= k < halving_from(s).len() ==> #[trigger] halving_from(s)[k] >= 1,
    decreases s,
{
    if s > 1 {
        lemma_halving_shape(s / 2);
        let t = halving_from(s / 2);
        assert(halving_from(s) == seq![s].add(t));
        assert forall|k: int| 0 <= k < halving_from(s).len() - 2 implies #[trigger] halving_from(
            s,
        )[k + 1] == halving_from(s)[k] / 2 && halving_from(s)[k + 1] < halving_from(s)[k] by {
            if k > 0 {
                assert(halving_from(s)[k + 1] == t[k]);
                assert(halving_from(s)[k] == t[k - 1]);
                assert(t[(k - 1) + 1] == t[k - 1] / 2);
            }
        }
        assert forall|k: int| 0 <= k < halving_from(s).len() implies #[trigger] halving_from(
            s,
        )[k] >= 1 by {
            if k > 0 {
                assert(halving_from(s)[k] == t[k - 1]);
            }
        }
    }
}

/// Step sizes of the propagation passes for a `w` by `h` target.
pub fn step_sizes(w: u32, h: u32) -> (r: Vec<u32>)
    ensures
        nat_seq(r@) == halving_from(initial_step_spec(w, h)),
{
    let s0 = initial_step(w, h);
    let mut s: u32 = s0;
    let mut r: Vec<u32> = Vec::new();
    while s > 1
        invariant
            nat_seq(r@).add(halving_from(s as nat)) == halving_from(s0 as nat),
        decreases s,
    {
        proof {
            assert(halving_from(s as nat) == seq![s as nat].add(halving_from((s / 2) as nat)));
        }
        let ghost prev = r@;
        r.push(s);
        proof {
            assert(nat_seq(r@) =~= nat_seq(prev).push(s as nat));
            assert(nat_seq(r@).add(halving_from((s / 2) as nat)) =~= nat_seq(prev).add(
                seq![s as nat].add(halving_from((s / 2) as nat)),
            ));
        }
        s = s / 2;
    }
    let ghost before = r@;
    r.push(1);
    r.push(1);
    proof {
        assert(halving_from(s as nat) == seq![1nat, 1nat]);
        assert(nat_seq(r@) =~= nat_seq(before).add(seq![1nat, 1nat]));
    }
    r
}

/// `ceil(n / d)` for a `u32` numerator.
pub fn div_ceil(n: u32, d: u32) -> (r: u32)
    requires
        d > 0,
    ensures
        r == div_ceil_spec(n as nat, d as nat),
{
    let q = n / d;
    let m = n % d;
    proof {
        lemma_fundamental_div_mod(n as int, d as int);
        assert(n == q * d + m) by (nonlinear_arith)
            requires
                n == d * q + m,
        ;
        if m == 0 {
            assert(n + d - 1 == q * d + (d - 1));
            lemma_fundamental_div_mod_converse(n + d - 1, d as int, q as int, d - 1);
        } else {
            assert(n + d - 1 == (q + 1) * d + (m - 1)) by (nonlinear_arith)
                requires
                    n == q * d + m,
            ;
            lemma_fundamental_div_mod_converse(n + d - 1, d as int, q + 1, m - 1);
            assert(q < n) by (nonlinear_arith)
                requires
                    n == q * d + m,
                    m < d,
                    m >= 1,
                    d >= 2,
            ;
        }
    }
    if m == 0 {
        q
    } else {
        q + 1
    }
}

/// One propagation pass: the step it floods with and the ping-pong bind group it uses.
/// Bind group `g` reads buffer `1 - g` and writes buffer `g`.
#[derive(Debug, PartialEq, Eq, Clone, Copy, Structural)]
pub struct JfaPass {
    pub step: u32,
    pub bind_group: usize,
}

/// Buffer that bind group `g` reads.
pub open spec fn reads(g: usize) -> int {
    1 - g
}

/// Buffer that bind group `g` writes.
pub open spec fn writes(g: usize) -> int {
    g as int
}

/// Everything a backend needs to run one jump flood: the seed pass writes buffer 0 through
/// `seed_bind_group`, the propagation passes run in order, and the resolve pass reads the
/// flooded seeds through `final_bind_group`.
#[derive(Debug)]
pub struct JfaPlan {
    pub workgroups: (u32, u32),
    pub seed_bind_group: usize,
    pub passes: Vec<JfaPass>,
    pub final_bind_group: usize,
}

/// Why a jump flood cannot be planned.
#[derive(Debug, PartialEq, Eq, Clone, Copy, Structural)]
pub enum JfaError {
    /// The target has no texels along some axis.
    EmptyTarget,
    /// The target does not match the resolution of the ping-pong buffers.
    SizeMismatch,
}

impl JfaPlan {
    /// The plan floods a `w` by `h` target with the halving schedule and alternates buffers.
    pub open spec fn plans(self, w: u32, h: u32) -> bool {
        &&& self.workgroups.0 == div_ceil_spec(w as nat, JFA_TILE as nat)
        &&& self.workgroups.1 == div_ceil_spec(h as nat, JFA_TILE as nat)
        &&& self.seed_bind_group == 0
        &&& self.passes@.len() == halving_from(initial_step_spec(w, h)).len()
        &&& forall|k: int|
            0 <= k < self.passes@.len() ==> {
                &&& (#[trigger] self.passes@[k]).step == halving_from(initial_step_spec(w, h))[k]
                &&& self.passes@[k].bind_group == (k + 1) % 2
            }
        &&& self.final_bind_group == 1 - self.passes@.len() % 2
    }
}

proof fn lemma_alternation_chains(passes: Seq<JfaPass>, final_bind_group: usize)
    requires
        passes.len() >= 1,
        forall|k: int| 0 <= k < passes.len() ==> (#[trigger] passes[k]).bind_group == (k + 1) % 2,
        final_bind_group == 1 - passes.len() % 2,
    ensures
        reads(passes[0].bind_group) == writes(0),
        forall|k: int|
            0 <= k < passes.len() ==> reads(#[trigger] passes[k].bind_group) != writes(
                passes[k].bind_group,
            ),
        forall|k: int|
            0 < k < passes.len() ==> reads(#[trigger] passes[k].bind_group) == writes(
                passes[k - 1].bind_group,
            ),
        reads(final_bind_group) == writes(passes[passes.len() - 1].bind_group),
{
    let n = passes.len();
    assert(passes[n - 1].bind_group == n % 2);
    assert(passes[0].bind_group == 1);
    assert forall|k: int| 0 < k < passes.len() implies reads(#[trigger] passes[k].bind_group)
        == writes(passes[k - 1].bind_group) by {
        assert(passes[k - 1].bind_group == k % 2);
    }
}

/// Each pass reads what the one before it wrote, never the buffer it writes, and the resolve
/// pass reads the last pass's output.
pub proof fn lemma_plan_chains(p: JfaPlan, w: u32, h: u32)
    requires
        p.plans(w, h),
    ensures
        p.passes@.len() >= 2,
        reads(p.passes@[0].bind_group) == writes(p.seed_bind_group),
        forall|k: int|
            0 <= k < p.passes@.len() ==> reads(#[trigger] p.passes@[k].bind_group) != writes(
                p.passes@[k].bind_group,
            ),
        forall|k: int|
            0 < k < p.passes@.len() ==> reads(#[trigger] p.passes@[k].bind_group) == writes(
                p.passes@[k - 1].bind_group,
            ),
        reads(p.final_bind_group) == writes(p.passes@[p.passes@.len() - 1].bind_group),
{
    let s = initial_step_spec(w, h);
    if s == 0 {
        assert(halving_from(s).len() == 2);
    } else {
        lemma_halving_shape(s);
    }
    lemma_alternation_chains(p.passes@, p.final_bind_group);
}

/// Jump-flood solver for a fixed buffer resolution.
#[derive(Debug)]
pub struct JFA {
    size: (u32, u32),
}

impl JFA {
    /// Resolution of the ping-pong buffers.
    pub closed spec fn size(self) -> (u32, u32) {
        self.size
    }

    pub fn new(window_size: (u32, u32)) -> (r: JFA)
        ensures
            r.size() == window_size,
    {
        JFA { size: window_size }
    }

    pub fn buffer_size(&self) -> (r: (u32, u32))
        ensures
            r == self.size(),
    {
        self.size
    }

    /// Plans a flood of a `texture_size` target: fails on an empty target, and on one that does
    /// not match the buffers (stale buffers are never read).
    pub fn render(&self, texture_size: (u32, u32)) -> (r: Result<JfaPlan, JfaError>)
        ensures
            (texture_size.0 == 0 || texture_size.1 == 0) ==> r == Err::<JfaPlan, JfaError>(
                JfaError::EmptyTarget,
            ),
            (texture_size.0 > 0 && texture_size.1 > 0 && texture_size != self.size()) ==> r
                == Err::<JfaPlan, JfaError>(JfaError::SizeMismatch),
            (texture_size.0 > 0 && texture_size.1 > 0 && texture_size == self.size()) ==> (
            match r {
                Ok(p) => p.plans(texture_size.0, texture_size.1),
                Err(_) => false,
            }),
    {
        let (w, h) = texture_size;
        if w == 0 || h == 0 {
            return Err(JfaError::EmptyTarget);
        }
        if w != self.size.0 || h != self.size.1 {
            return Err(JfaError::SizeMismatch);
        }
        let steps = step_sizes(w, h);
        let mut passes: Vec<JfaPass> = Vec::new();
        let mut k: usize = 0;
        while k < steps.len()
            invariant
                k <= steps@.len(),
                nat_seq(steps@) == halving_from(initial_step_spec(w, h)),
                passes@.len() == k,
                forall|j: int|
                    0 <= j < k ==> {
                        &&& (#[trigger] passes@[j]).step == steps@[j]
                        &&& passes@[j].bind_group == (j + 1) % 2
                    },
            decreases steps@.len() - k,
        {
            passes.push(JfaPass { step: steps[k], bind_group: (k + 1) % 2 });
            k = k + 1;
        }
        let n = passes.len();
        let plan = JfaPlan {
            workgroups: (div_ceil(w, JFA_TILE), div_ceil(h, JFA_TILE)),
            seed_bind_group: 0,
            passes,
            final_bind_group: 1 - n % 2,
        };
        proof {
            assert forall|j: int| 0 <= j < plan.passes@.len() implies (
            #[trigger] plan.passes@[j]).step == halving_from(initial_step_spec(w, h))[j] by {
                assert(nat_seq(steps@)[j] == steps@[j] as nat);
            }
        }
        Ok(plan)
    }
}

} // verus!
