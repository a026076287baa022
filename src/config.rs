//! Radiance-cascade configuration and the sizing math derived from it.
//!
//! Fractional quantities (probe spacing, ray length, spatial scaling) are 16.16 fixed-point
//! numbers: the value `v` stands for `v / FIXED_ONE`.

use vstd::arithmetic::div_mod::lemma_basic_div;
use vstd::arithmetic::div_mod::lemma_div_is_ordered;
use vstd::arithmetic::div_mod::lemma_div_by_multiple;
use vstd::arithmetic::div_mod::lemma_div_is_ordered_by_denominator;
use vstd::arithmetic::mul::lemma_mul_inequality;
use vstd::arithmetic::power::pow;
use vstd::prelude::*;

verus! {

/// The fixed-point value 1.0.
pub const FIXED_ONE: u32 = 65536;

/// Probe spacings (in fixed-point units) at or above this bound exceed every canvas extent a
/// `u32` can hold, so the spacing recurrence is tracked only up to it.
pub const SPACING_CAP: u64 = 0x1_0000_0000_0000;

/// Placement of probes inside a cascade.
#[derive(Debug, PartialEq, Eq, Clone, Copy, Structural)]
pub enum ProbeLayout {
    Offset,
    Stacked,
}

impl ProbeLayout {
    /// The value the shaders see for this layout.
    pub open spec fn code_spec(self) -> u32 {
        match self {
            ProbeLayout::Offset => 0,
            ProbeLayout::Stacked => 1,
        }
    }

    pub fn code(self) -> (r: u32)
        ensures
            r == self.code_spec(),
    {
        match self {
            ProbeLayout::Offset => 0,
            ProbeLayout::Stacked => 1,
        }
    }
}

/// How the merge between neighbouring cascades suppresses ringing.
#[derive(Debug, PartialEq, Eq, Clone, Copy, Structural)]
pub enum RingingFix {
    Vanilla,
    Bilinear,
}

impl RingingFix {
    /// The value the shaders see for this policy.
    pub open spec fn code_spec(self) -> u32 {
        match self {
            RingingFix::Vanilla => 0,
            RingingFix::Bilinear => 1,
        }
    }

    pub fn code(self) -> (r: u32)
        ensures
            r == self.code_spec(),
    {
        match self {
            RingingFix::Vanilla => 0,
            RingingFix::Bilinear => 1,
        }
    }

    /// Human-readable name of the policy.
    pub fn name(self) -> (r: &'static str)
        ensures
            self == RingingFix::Vanilla ==> r@ == "Vanilla"@,
            self == RingingFix::Bilinear ==> r@ == "Bilinear"@,
    {
        match self {
            RingingFix::Vanilla => "Vanilla",
            RingingFix::Bilinear => "Bilinear",
        }
    }
}

/// `min(x, u32::MAX)`: what a saturating `u32` computation of `x` yields.
pub open spec fn sat_u32(x: nat) -> nat {
    if x > u32::MAX as nat {
        u32::MAX as nat
    } else {
        x
    }
}

/// `ceil(n / d)`.
pub open spec fn ceil_div(n: nat, d: nat) -> nat
    recommends
        d > 0,
{
    if n == 0 {
        0
    } else {
        ((n - 1) / (d as int) + 1) as nat
    }
}

/// Probe spacing at `level` in fixed-point units: the base spacing multiplied by the spatial
/// scaling once per level, each product rounded down to the fixed-point grid.
pub open spec fn spacing_at(base: nat, scaling: nat, level: nat) -> nat
    decreases level,
{
    if level == 0 {
        base
    } else {
        spacing_at(base, scaling, (level - 1) as nat) * scaling / (FIXED_ONE as nat)
    }
}

/// Probes along one axis of extent `extent` texels at spacing `spacing` (fixed point):
/// `ceil(extent / spacing) + 1`, the extra probe covering the far edge.
pub open spec fn grid_dim(extent: nat, spacing: nat) -> nat {
    ceil_div(extent * (FIXED_ONE as nat), spacing) + 1
}

/// Ray count of `level`: one at level 0, `base * angular^(level - 1)` above it.
pub open spec fn rays_at(base: nat, angular: nat, level: nat) -> nat {
    if level == 0 {
        1
    } else {
        (base * pow(angular as int, (level - 1) as nat)) as nat
    }
}

/// Shape of a radiance-cascade hierarchy.
#[derive(Debug, PartialEq, Eq, Clone, Copy, Structural)]
pub struct RCConfig {
    pub c0_rays: u32,
    /// Probe spacing of cascade 0, fixed point.
    pub c0_spacing: u32,
    /// Ray length of cascade 0, fixed point.
    pub c0_raylength: u32,
    pub angular_scaling: u32,
    /// Growth of the probe spacing per level, fixed point.
    pub spatial_scaling: u32,
    pub probe_layout: ProbeLayout,
    pub ringing_fix: RingingFix,
    pub num_cascades: u32,
}

impl RCConfig {
    /// The probe geometry is defined: a positive base spacing that never shrinks.
    pub open spec fn well_formed(self) -> bool {
        self.c0_spacing >= 1 && self.spatial_scaling >= FIXED_ONE
    }

    pub open spec fn spacing(self, level: nat) -> nat {
        spacing_at(self.c0_spacing as nat, self.spatial_scaling as nat, level)
    }

    pub open spec fn capped_spacing(self, level: nat) -> nat {
        if self.spacing(level) > SPACING_CAP as nat {
            SPACING_CAP as nat
        } else {
            self.spacing(level)
        }
    }

    /// Probe grid of `level` on a canvas of `size` texels.
    pub open spec fn grid(self, size: (u32, u32), level: nat) -> (nat, nat) {
        (
            grid_dim(size.0 as nat, self.spacing(level)),
            grid_dim(size.1 as nat, self.spacing(level)),
        )
    }

    pub open spec fn rays(self, level: nat) -> nat {
        rays_at(self.c0_rays as nat, self.angular_scaling as nat, level)
    }

    /// Linear storage of `level`: rays times probes, unbounded.
    pub open spec fn level_size(self, size: (u32, u32), level: nat) -> nat {
        self.rays(level) * self.grid(size, level).0 * self.grid(size, level).1
    }

    /// Largest saturated level size among levels `0..n`; zero when `n == 0`.
    pub open spec fn max_level_size(self, size: (u32, u32), n: nat) -> nat
        decreases n,
    {
        if n == 0 {
            0
        } else {
            let prev = self.max_level_size(size, (n - 1) as nat);
            let cur = sat_u32(self.level_size(size, (n - 1) as nat));
            if cur > prev {
                cur
            } else {
                prev
            }
        }
    }
}

/// `min(x, SPACING_CAP)`.
pub open spec fn cap_spacing(x: nat) -> nat {
    if x > SPACING_CAP as nat {
        SPACING_CAP as nat
    } else {
        x
    }
}

/// One level of spacing growth on capped values.
pub open spec fn capped_step(s: nat, scaling: nat) -> nat {
    cap_spacing(s * scaling / (FIXED_ONE as nat))
}

/// Multiplying by a fixed-point factor of at least one never lowers a value.
proof fn lemma_scale_up(s: nat, scaling: nat)
    requires
        scaling >= FIXED_ONE,
    ensures
        s * scaling / (FIXED_ONE as nat) >= s,
{
    lemma_mul_inequality(FIXED_ONE as int, scaling as int, s as int);
    assert(FIXED_ONE * s == s * FIXED_ONE) by (nonlinear_arith);
    lemma_div_is_ordered((s * FIXED_ONE) as int, (s * scaling) as int, FIXED_ONE as int);
    lemma_div_by_multiple(s as int, FIXED_ONE as int);
}

/// With a base of at least one and a scaling of at least one, spacing is positive and never
/// decreases from one level to the next.
pub proof fn lemma_spacing_monotone(c: RCConfig, i: nat, j: nat)
    requires
        c.well_formed(),
        i <= j,
    ensures
        1 <= c.spacing(i) <= c.spacing(j),
    decreases j,
{
    if j > 0 {
        if i == j {
            lemma_spacing_monotone(c, 0, (j - 1) as nat);
        } else {
            lemma_spacing_monotone(c, i, (j - 1) as nat);
        }
        lemma_scale_up(c.spacing((j - 1) as nat), c.spacing_scaling());
    }
}

proof fn lemma_capped_spacing_step(c: RCConfig, level: nat)
    requires
        c.well_formed(),
    ensures
        c.capped_spacing(level + 1) == capped_step(c.capped_spacing(level), c.spacing_scaling()),
{
    let g = c.spacing_scaling();
    let s = c.spacing(level);
    assert(c.spacing(level + 1) == s * g / (FIXED_ONE as nat));
    lemma_scale_up(s, g);
    lemma_scale_up(SPACING_CAP as nat, g);
}

/// Once a capped step leaves the spacing unchanged, it stays unchanged at every later level.
proof fn lemma_capped_spacing_stable(c: RCConfig, k: nat, j: nat)
    requires
        c.well_formed(),
        k <= j,
        capped_step(c.capped_spacing(k), c.spacing_scaling()) == c.capped_spacing(k),
    ensures
        c.capped_spacing(j) == c.capped_spacing(k),
    decreases j,
{
    if j > k {
        lemma_capped_spacing_stable(c, k, (j - 1) as nat);
        lemma_capped_spacing_step(c, (j - 1) as nat);
    }
}

/// `ceil(n / d)` does not grow when `d` grows.
pub proof fn lemma_ceil_div_antitone(n: nat, d1: nat, d2: nat)
    requires
        1 <= d1 <= d2,
    ensures
        ceil_div(n, d2) <= ceil_div(n, d1),
{
    if n > 0 {
        lemma_div_is_ordered_by_denominator((n - 1) as int, d1 as int, d2 as int);
    }
}

/// A spacing beyond the cap gives the same probe count as the cap itself.
proof fn lemma_grid_dim_capped(extent: u32, s: nat)
    requires
        s >= 1,
    ensures
        grid_dim(extent as nat, cap_spacing(s)) == grid_dim(extent as nat, s),
{
    let n = extent as nat * FIXED_ONE as nat;
    if s > SPACING_CAP as nat && n > 0 {
        assert(n < SPACING_CAP as nat) by (nonlinear_arith)
            requires
                n == extent as nat * FIXED_ONE as nat,
                extent <= u32::MAX,
        ;
        lemma_basic_div((n - 1) as int, s as int);
        lemma_basic_div((n - 1) as int, SPACING_CAP as int);
    }
}

/// Saturating each factor before a saturating product changes nothing.
pub proof fn lemma_sat_mul(a: nat, b: nat)
    ensures
        sat_u32(sat_u32(a) * sat_u32(b)) == sat_u32(a * b),
{
    let m = u32::MAX as nat;
    if a > m && b >= 1 {
        assert(sat_u32(a) * sat_u32(b) >= m) by (nonlinear_arith)
            requires
                sat_u32(a) == m,
                sat_u32(b) >= 1,
        ;
        assert(a * b >= m) by (nonlinear_arith)
            requires
                a > m,
                b >= 1,
        ;
    } else if b > m && a >= 1 {
        assert(sat_u32(a) * sat_u32(b) >= m) by (nonlinear_arith)
            requires
                sat_u32(b) == m,
                sat_u32(a) >= 1,
        ;
        assert(a * b >= m) by (nonlinear_arith)
            requires
                b > m,
                a >= 1,
        ;
    } else if a == 0 || b == 0 {
        assert(a * b == 0) by (nonlinear_arith)
            requires
                a == 0 || b == 0,
        ;
        assert(sat_u32(a) * sat_u32(b) == 0) by (nonlinear_arith)
            requires
                sat_u32(a) == 0 || sat_u32(b) == 0,
        ;
    }
}

proof fn lemma_pow_nonneg(a: nat, e: nat)
    ensures
        pow(a as int, e) >= 0,
    decreases e,
{
    reveal(pow);
    if e > 0 {
        lemma_pow_nonneg(a, (e - 1) as nat);
        assert(a * pow(a as int, (e - 1) as nat) >= 0) by (nonlinear_arith)
            requires
                pow(a as int, (e - 1) as nat) >= 0,
        ;
    }
}

/// Ray counts above level 1 follow `sat(r * angular)` on saturated values.
proof fn lemma_rays_step(c: RCConfig, level: nat)
    requires
        level >= 1,
    ensures
        c.rays(level + 1) == c.rays(level) * c.angular_scaling,
        sat_u32(c.rays(level + 1)) == sat_u32(sat_u32(c.rays(level)) * (c.angular_scaling as nat)),
{
    let a = c.angular_scaling as int;
    reveal(pow);
    assert(pow(a, level) == a * pow(a, (level - 1) as nat));
    let p = pow(a, (level - 1) as nat);
    lemma_pow_nonneg(c.angular_scaling as nat, (level - 1) as nat);
    assert(c.c0_rays * (a * p) == (c.c0_rays * p) * a) by (nonlinear_arith);
    assert(c.c0_rays * p >= 0) by (nonlinear_arith)
        requires
            p >= 0,
    ;
    assert(c.rays(level) == c.c0_rays * p);
    assert(c.rays(level + 1) == c.c0_rays * (a * p));
    lemma_sat_mul(c.rays(level), c.angular_scaling as nat);
}

/// Once a saturated ray count is a fixed point of the step, it stays at every later level.
proof fn lemma_rays_stable(c: RCConfig, k: nat, j: nat)
    requires
        1 <= k <= j,
        sat_u32(sat_u32(c.rays(k)) * (c.angular_scaling as nat)) == sat_u32(c.rays(k)),
    ensures
        sat_u32(c.rays(j)) == sat_u32(c.rays(k)),
    decreases j,
{
    if j > k {
        lemma_rays_stable(c, k, (j - 1) as nat);
        lemma_rays_step(c, (j - 1) as nat);
    }
}

/// Probe grids shrink (never grow) along both axes as the cascade index rises, whenever the
/// spatial scaling is at least one.
pub proof fn lemma_grid_non_increasing(c: RCConfig, size: (u32, u32), i: nat, j: nat)
    requires
        c.well_formed(),
        i <= j,
    ensures
        c.grid(size, j).0 <= c.grid(size, i).0,
        c.grid(size, j).1 <= c.grid(size, i).1,
        sat_u32(c.grid(size, j).0) <= sat_u32(c.grid(size, i).0),
        sat_u32(c.grid(size, j).1) <= sat_u32(c.grid(size, i).1),
{
    lemma_spacing_monotone(c, i, j);
    lemma_ceil_div_antitone(size.0 as nat * FIXED_ONE as nat, c.spacing(i), c.spacing(j));
    lemma_ceil_div_antitone(size.1 as nat * FIXED_ONE as nat, c.spacing(i), c.spacing(j));
}

/// Cascade 0 has a single ray, and every level from 2 on has `angular_scaling` times the rays
/// of the level below it.
pub proof fn lemma_ray_count_recurrence(c: RCConfig, i: nat)
    ensures
        c.rays(0) == 1,
        i >= 2 ==> c.rays(i) == c.rays((i - 1) as nat) * c.angular_scaling,
{
    if i >= 2 {
        lemma_rays_step(c, (i - 1) as nat);
    }
}

/// The maximum level size is the largest saturated level size over `0..n`: it bounds each of
/// them and, when there is a level, equals one of them; without levels it is zero.
pub proof fn lemma_max_level_size_is_max(c: RCConfig, size: (u32, u32), n: nat)
    ensures
        forall|i: nat| i < n ==> sat_u32(#[trigger] c.level_size(size, i)) <= c.max_level_size(
            size,
            n,
        ),
        n > 0 ==> exists|i: nat| i < n && c.max_level_size(size, n) == sat_u32(
            #[trigger] c.level_size(size, i),
        ),
        n == 0 ==> c.max_level_size(size, n) == 0,
    decreases n,
{
    if n > 0 {
        lemma_max_level_size_is_max(c, size, (n - 1) as nat);
        let last = (n - 1) as nat;
        if c.max_level_size(size, n) == sat_u32(c.level_size(size, last)) {
            assert(last < n);
        } else {
            let k = choose|i: nat| i < last && c.max_level_size(size, last) == sat_u32(
                #[trigger] c.level_size(size, i),
            );
            assert(k < n);
        }
    }
}

/// `sat(x * y)` for two `u32` values.
fn sat_mul(x: u32, y: u32) -> (r: u32)
    ensures
        r == sat_u32(x as nat * y as nat),
{
    assert(x as nat * y as nat <= u64::MAX) by (nonlinear_arith)
        requires
            x <= u32::MAX,
            y <= u32::MAX,
    ;
    let p: u64 = x as u64 * y as u64;
    if p > u32::MAX as u64 {
        u32::MAX
    } else {
        p as u32
    }
}

/// `min(s * scaling / FIXED_ONE, SPACING_CAP)`.
fn next_spacing(s: u64, scaling: u32) -> (r: u64)
    requires
        s <= SPACING_CAP,
    ensures
        r == capped_step(s as nat, scaling as nat),
{
    assert(s as nat * scaling as nat <= SPACING_CAP as nat * u32::MAX as nat) by (nonlinear_arith)
        requires
            s <= SPACING_CAP,
            scaling <= u32::MAX,
    ;
    let p: u128 = (s as u128) * (scaling as u128) / (FIXED_ONE as u128);
    if p > SPACING_CAP as u128 {
        SPACING_CAP
    } else {
        p as u64
    }
}

/// `sat(ceil(extent / spacing) + 1)` with `spacing` in fixed point.
fn grid_dim_exec(extent: u32, s: u64) -> (r: u32)
    requires
        1 <= s <= SPACING_CAP,
    ensures
        r == sat_u32(grid_dim(extent as nat, s as nat)),
{
    assert(extent as nat * FIXED_ONE as nat <= u32::MAX as nat * 65536) by (nonlinear_arith)
        requires
            extent <= u32::MAX,
    ;
    let n: u64 = extent as u64 * FIXED_ONE as u64;
    let q: u64 = if n == 0 {
        0
    } else {
        (n - 1) / s + 1
    };
    if q >= u32::MAX as u64 {
        u32::MAX
    } else {
        q as u32 + 1
    }
}

impl RCConfig {
    pub open spec fn spacing_scaling(self) -> nat {
        self.spatial_scaling as nat
    }

    /// Probe spacing of `level` in fixed point, capped at `SPACING_CAP`.
    fn spacing_fixed(&self, level: u32) -> (s: u64)
        requires
            self.well_formed(),
        ensures
            s == self.capped_spacing(level as nat),
            1 <= s <= SPACING_CAP,
    {
        let mut s: u64 = if self.c0_spacing as u64 > SPACING_CAP {
            SPACING_CAP
        } else {
            self.c0_spacing as u64
        };
        let mut k: u32 = 0;
        while k < level
            invariant
                self.well_formed(),
                k <= level,
                s == self.capped_spacing(k as nat),
            decreases level - k,
        {
            let next = next_spacing(s, self.spatial_scaling);
            proof {
                lemma_capped_spacing_step(*self, k as nat);
            }
            if next == s {
                proof {
                    lemma_capped_spacing_stable(*self, k as nat, level as nat);
                }
                k = level;
            } else {
                s = next;
                k = k + 1;
            }
        }
        proof {
            lemma_spacing_monotone(*self, 0, level as nat);
        }
        s
    }

    /// Probe grid `(width, height)` of `cascade_index` on a canvas of `window_size` texels:
    /// `ceil(extent / spacing) + 1` per axis, saturated at `u32::MAX`.
    pub fn get_spatial_resolution(&self, window_size: (u32, u32), cascade_index: u32) -> (r: (
        u32,
        u32,
    ))
        requires
            self.well_formed(),
        ensures
            r.0 == sat_u32(self.grid(window_size, cascade_index as nat).0),
            r.1 == sat_u32(self.grid(window_size, cascade_index as nat).1),
    {
        let s = self.spacing_fixed(cascade_index);
        proof {
            lemma_spacing_monotone(*self, 0, cascade_index as nat);
            lemma_grid_dim_capped(window_size.0, self.spacing(cascade_index as nat));
            lemma_grid_dim_capped(window_size.1, self.spacing(cascade_index as nat));
        }
        (grid_dim_exec(window_size.0, s), grid_dim_exec(window_size.1, s))
    }

    /// Number of probes of `cascade_num`: the product of the grid dimensions, saturated.
    pub fn get_num_probes_1d(&self, window_size: (u32, u32), cascade_num: u32) -> (r: u32)
        requires
            self.well_formed(),
        ensures
            r == sat_u32(
                self.grid(window_size, cascade_num as nat).0 * self.grid(
                    window_size,
                    cascade_num as nat,
                ).1,
            ),
    {
        let res = self.get_spatial_resolution(window_size, cascade_num);
        proof {
            let g = self.grid(window_size, cascade_num as nat);
            lemma_sat_mul(g.0, g.1);
        }
        sat_mul(res.0, res.1)
    }

    /// Rays per probe at `cascade_index`, saturated at `u32::MAX`.
    pub fn ray_count(&self, cascade_index: u32) -> (r: u32)
        ensures
            r == sat_u32(self.rays(cascade_index as nat)),
    {
        if cascade_index == 0 {
            return 1;
        }
        let mut r: u32 = self.c0_rays;
        let mut k: u32 = 1;
        assert(pow(self.angular_scaling as int, 0) == 1) by {
            reveal(pow);
        }
        while k < cascade_index
            invariant
                1 <= k <= cascade_index,
                r == sat_u32(self.rays(k as nat)),
            decreases cascade_index - k,
        {
            let next = sat_mul(r, self.angular_scaling);
            proof {
                lemma_rays_step(*self, k as nat);
            }
            if next == r {
                proof {
                    lemma_rays_stable(*self, k as nat, cascade_index as nat);
                }
                k = cascade_index;
            } else {
                r = next;
                k = k + 1;
            }
        }
        r
    }

    /// Linear buffer size of `cascade_index`: rays times probes, saturated at `u32::MAX`
    /// rather than wrapped.
    pub fn get_cascade_size(&self, window_size: (u32, u32), cascade_index: u32) -> (r: u32)
        requires
            self.well_formed(),
        ensures
            r == sat_u32(self.level_size(window_size, cascade_index as nat)),
    {
        let rays = self.ray_count(cascade_index);
        let probes = self.get_num_probes_1d(window_size, cascade_index);
        proof {
            let l = cascade_index as nat;
            let g = self.grid(window_size, l);
            lemma_sat_mul(self.rays(l), g.0 * g.1);
            assert(self.rays(l) * (g.0 * g.1) == self.rays(l) * g.0 * g.1) by (nonlinear_arith);
        }
        sat_mul(rays, probes)
    }

    /// Largest level size over levels `0..num_cascades`; zero without levels.
    pub fn get_max_cascade_size(&self, window_size: (u32, u32)) -> (r: u32)
        requires
            self.well_formed(),
        ensures
            r == self.max_level_size(window_size, self.num_cascades as nat),
    {
        let mut m: u32 = 0;
        let mut i: u32 = 0;
        while i < self.num_cascades
            invariant
                self.well_formed(),
                i <= self.num_cascades,
                m == self.max_level_size(window_size, i as nat),
            decreases self.num_cascades - i,
        {
            let size = self.get_cascade_size(window_size, i);
            if size > m {
                m = size;
            }
            i = i + 1;
        }
        m
    }
}

} // verus!
