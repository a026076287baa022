//! The jump flood itself, texel by texel: seed occupied texels, propagate the nearest seed
//! with the halving schedule, and resolve each texel to its squared distance from its seed.
//!
//! Grids are row-major: texel `(x, y)` of a `w`-wide grid sits at index `y * w + x`.

use crate::jfa::halving_from;
use crate::jfa::initial_step_spec;
use crate::jfa::step_sizes;
use crate::jfa::JfaError;
use crate::jfa::nat_seq;
use vstd::arithmetic::div_mod::lemma_fundamental_div_mod;
use vstd::arithmetic::div_mod::lemma_fundamental_div_mod_converse;
use vstd::prelude::*;

verus! {

/// Squared Euclidean distance between `(ax, ay)` and `(bx, by)`.
pub open spec fn sq_dist(ax: int, ay: int, bx: int, by: int) -> int {
    (ax - bx) * (ax - bx) + (ay - by) * (ay - by)
}

/// Offset `k` (`0..9`) of the 3x3 neighbourhood at step `s`, row by row; `k == 4` is the
/// texel itself.
pub open spec fn offset(k: int, s: int) -> (int, int) {
    ((k % 3 - 1) * s, (k / 3 - 1) * s)
}

/// The seed that texel `(x, y)` sees at neighbour `k`, or `None` off the grid.
pub open spec fn candidate(
    g: Seq<Option<(u32, u32)>>,
    w: int,
    h: int,
    x: int,
    y: int,
    s: int,
    k: int,
) -> Option<(u32, u32)> {
    let nx = x + offset(k, s).0;
    let ny = y + offset(k, s).1;
    if 0 <= nx < w && 0 <= ny < h {
        g[ny * w + nx]
    } else {
        None
    }
}

/// Of two optional seeds, the one nearer to `(x, y)`; `a` wins ties.
pub open spec fn nearer(x: int, y: int, a: Option<(u32, u32)>, b: Option<(u32, u32)>) -> Option<
    (u32, u32),
> {
    match b {
        None => a,
        Some(q) => match a {
            None => b,
            Some(c) => if sq_dist(x, y, q.0 as int, q.1 as int) < sq_dist(
                x,
                y,
                c.0 as int,
                c.1 as int,
            ) {
                b
            } else {
                a
            },
        },
    }
}

/// Nearest seed among the first `k` neighbours, earlier neighbours winning ties.
pub open spec fn best(
    g: Seq<Option<(u32, u32)>>,
    w: int,
    h: int,
    x: int,
    y: int,
    s: int,
    k: nat,
) -> Option<(u32, u32)>
    decreases k,
{
    if k == 0 {
        None
    } else {
        nearer(x, y, best(g, w, h, x, y, s, (k - 1) as nat), candidate(g, w, h, x, y, s, k - 1))
    }
}

/// Seed pass: each occupied texel holds its own coordinate, every other texel holds nothing.
pub open spec fn seed_spec(occ: Seq<bool>, w: int) -> Seq<Option<(u32, u32)>> {
    Seq::new(
        occ.len(),
        |i: int|
            if occ[i] {
                Some(((i % w) as u32, (i / w) as u32))
            } else {
                None
            },
    )
}

/// One propagation pass at step `s`: each texel takes the nearest seed of its neighbourhood.
pub open spec fn propagate_spec(g: Seq<Option<(u32, u32)>>, w: int, h: int, s: int) -> Seq<
    Option<(u32, u32)>,
> {
    Seq::new(g.len(), |i: int| best(g, w, h, i % w, i / w, s, 9))
}

/// Propagation passes for each step of `steps`, in order.
pub open spec fn flood_spec(g: Seq<Option<(u32, u32)>>, w: int, h: int, steps: Seq<nat>) -> Seq<
    Option<(u32, u32)>,
>
    decreases steps.len(),
{
    if steps.len() == 0 {
        g
    } else {
        flood_spec(propagate_spec(g, w, h, steps[0] as int), w, h, steps.drop_first())
    }
}

/// Resolve pass: each texel's squared distance to the seed it holds.
pub open spec fn resolve_spec(g: Seq<Option<(u32, u32)>>, w: int) -> Seq<Option<u128>> {
    Seq::new(
        g.len(),
        |i: int|
            match g[i] {
                Some(q) => Some(sq_dist(i % w, i / w, q.0 as int, q.1 as int) as u128),
                None => None,
            },
    )
}

/// The whole flood of occupancy grid `occ` on a `w` by `h` target.
pub open spec fn jump_flood_spec(occ: Seq<bool>, w: u32, h: u32) -> Seq<Option<u128>> {
    resolve_spec(
        flood_spec(seed_spec(occ, w as int), w as int, h as int, halving_from(initial_step_spec(w, h))),
        w as int,
    )
}

/// Texel `(x, y)` of the `w`-wide occupancy grid `occ` is occupied.
pub open spec fn occupied_at(occ: Seq<bool>, w: int, x: int, y: int) -> bool {
    occ[y * w + x]
}

/// Every seed held in `g` is the coordinate of an occupied texel.
pub open spec fn seeds_occupied(g: Seq<Option<(u32, u32)>>, occ: Seq<bool>, w: int, h: int) -> bool {
    forall|i: int|
        0 <= i < g.len() ==> match #[trigger] g[i] {
            Some(q) => q.0 < w && q.1 < h && occ[q.1 * w + q.0],
            None => true,
        }
}

proof fn lemma_index_in_grid(x: int, y: int, w: int, h: int)
    requires
        0 <= x < w,
        0 <= y < h,
    ensures
        0 <= y * w + x < w * h,
{
    assert(0 <= y * w + x < w * h) by (nonlinear_arith)
        requires
            0 <= x < w,
            0 <= y < h,
    ;
}

proof fn lemma_best_is_a_seed(
    g: Seq<Option<(u32, u32)>>,
    occ: Seq<bool>,
    w: int,
    h: int,
    x: int,
    y: int,
    s: int,
    k: nat,
)
    requires
        w >= 1,
        h >= 1,
        g.len() == w * h,
        seeds_occupied(g, occ, w, h),
    ensures
        match best(g, w, h, x, y, s, k) {
            Some(q) => q.0 < w && q.1 < h && occ[q.1 * w + q.0],
            None => true,
        },
    decreases k,
{
    if k > 0 {
        lemma_best_is_a_seed(g, occ, w, h, x, y, s, (k - 1) as nat);
        let nx = x + offset(k - 1, s).0;
        let ny = y + offset(k - 1, s).1;
        if 0 <= nx < w && 0 <= ny < h {
            lemma_index_in_grid(nx, ny, w, h);
            let _ = g[ny * w + nx];
        }
    }
}

proof fn lemma_flood_keeps_seeds(
    g: Seq<Option<(u32, u32)>>,
    occ: Seq<bool>,
    w: int,
    h: int,
    steps: Seq<nat>,
)
    requires
        w >= 1,
        h >= 1,
        g.len() == w * h,
        seeds_occupied(g, occ, w, h),
    ensures
        flood_spec(g, w, h, steps).len() == w * h,
        seeds_occupied(flood_spec(g, w, h, steps), occ, w, h),
    decreases steps.len(),
{
    if steps.len() > 0 {
        let p = propagate_spec(g, w, h, steps[0] as int);
        assert forall|i: int| 0 <= i < p.len() implies match #[trigger] p[i] {
            Some(q) => q.0 < w && q.1 < h && occ[q.1 * w + q.0],
            None => true,
        } by {
            lemma_best_is_a_seed(g, occ, w, h, i % w, i / w, steps[0] as int, 9);
        }
        lemma_flood_keeps_seeds(p, occ, w, h, steps.drop_first());
    }
}

proof fn lemma_seeds_start_occupied(occ: Seq<bool>, w: int, h: int)
    requires
        w >= 1,
        h >= 1,
        occ.len() == w * h,
        w <= u32::MAX,
        h <= u32::MAX,
    ensures
        seeds_occupied(seed_spec(occ, w), occ, w, h),
{
    let g = seed_spec(occ, w);
    assert forall|i: int| 0 <= i < g.len() implies match #[trigger] g[i] {
        Some(q) => q.0 < w && q.1 < h && occ[q.1 * w + q.0],
        None => true,
    } by {
        if occ[i] {
            lemma_fundamental_div_mod(i, w);
            assert(i / w < h) by (nonlinear_arith)
                requires
                    0 <= i < w * h,
                    i == w * (i / w) + i % w,
                    0 <= i % w < w,
            ;
            assert((i / w) * w + i % w == i) by (nonlinear_arith)
                requires
                    i == w * (i / w) + i % w,
            ;
        }
    }
}

/// Every value the flood resolves is the squared distance from its texel to some occupied
/// texel.
pub proof fn lemma_flood_sound(occ: Seq<bool>, w: u32, h: u32)
    requires
        w >= 1,
        h >= 1,
        occ.len() == w * h,
    ensures
        jump_flood_spec(occ, w, h).len() == w * h,
        forall|i: int|
            0 <= i < w * h ==> match #[trigger] jump_flood_spec(occ, w, h)[i] {
                Some(d) => exists|qx: int, qy: int|
                    0 <= qx < w && 0 <= qy < h && #[trigger] occupied_at(occ, w as int, qx, qy) && d == sq_dist(
                        i % (w as int),
                        i / (w as int),
                        qx,
                        qy,
                    ),
                None => true,
            },
{
    let wi = w as int;
    let hi = h as int;
    lemma_seeds_start_occupied(occ, wi, hi);
    let steps = halving_from(initial_step_spec(w, h));
    lemma_flood_keeps_seeds(seed_spec(occ, wi), occ, wi, hi, steps);
    let g = flood_spec(seed_spec(occ, wi), wi, hi, steps);
    assert forall|i: int| 0 <= i < w * h implies match #[trigger] jump_flood_spec(occ, w, h)[i] {
        Some(d) => exists|qx: int, qy: int|
            0 <= qx < w && 0 <= qy < h && #[trigger] occupied_at(occ, w as int, qx, qy) && d == sq_dist(
                i % (w as int),
                i / (w as int),
                qx,
                qy,
            ),
        None => true,
    } by {
        match g[i] {
            Some(q) => {
                let dx = i % wi - q.0;
                let dy = i / wi - q.1;
                lemma_fundamental_div_mod(i, wi);
                assert(0 <= i % wi < wi);
                assert(0 <= i / wi < hi) by (nonlinear_arith)
                    requires
                        0 <= i < wi * hi,
                        i == wi * (i / wi) + i % wi,
                        0 <= i % wi < wi,
                ;
                assert(0 <= sq_dist(i % wi, i / wi, q.0 as int, q.1 as int) <= 2 * (u32::MAX as int) * (u32::MAX as int)) by (nonlinear_arith)
                    requires
                        dx == i % wi - q.0,
                        dy == i / wi - q.1,
                        0 <= i % wi < wi,
                        0 <= i / wi < hi,
                        q.0 < wi,
                        q.1 < hi,
                        wi <= u32::MAX,
                        hi <= u32::MAX,
                ;
                assert(jump_flood_spec(occ, w, h)[i] == Some(
                    sq_dist(i % wi, i / wi, q.0 as int, q.1 as int) as u128,
                ));
                assert(occupied_at(occ, wi, q.0 as int, q.1 as int));
            },
            None => {},
        }
    }
}

/// With exactly one occupied texel `(x0, y0)`, every value the flood resolves is the exact
/// squared distance to `(x0, y0)`.
pub proof fn lemma_single_seed_exact(occ: Seq<bool>, w: u32, h: u32, x0: u32, y0: u32)
    requires
        x0 < w,
        y0 < h,
        occ.len() == w * h,
        forall|i: int| 0 <= i < occ.len() ==> (#[trigger] occ[i] <==> i == y0 * w + x0),
    ensures
        forall|i: int|
            0 <= i < w * h ==> match #[trigger] jump_flood_spec(occ, w, h)[i] {
                Some(d) => d == sq_dist(i % (w as int), i / (w as int), x0 as int, y0 as int),
                None => true,
            },
{
    lemma_flood_sound(occ, w, h);
    assert forall|i: int| 0 <= i < w * h implies match #[trigger] jump_flood_spec(occ, w, h)[i] {
        Some(d) => d == sq_dist(i % (w as int), i / (w as int), x0 as int, y0 as int),
        None => true,
    } by {
        match jump_flood_spec(occ, w, h)[i] {
            Some(d) => {
                let (qx, qy) = choose|qx: int, qy: int|
                    0 <= qx < w && 0 <= qy < h && #[trigger] occupied_at(occ, w as int, qx, qy) && d == sq_dist(
                        i % (w as int),
                        i / (w as int),
                        qx,
                        qy,
                    );
                lemma_index_in_grid(qx, qy, w as int, h as int);
                assert(qy * w + qx == y0 * w + x0);
                lemma_fundamental_div_mod_converse(qy * w + qx, w as int, qy, qx);
                lemma_fundamental_div_mod_converse(y0 * w + x0, w as int, y0 as int, x0 as int);
            },
            None => {},
        }
    }
}

fn sq_dist_exec(ax: u32, ay: u32, bx: u32, by: u32) -> (r: u128)
    ensures
        r == sq_dist(ax as int, ay as int, bx as int, by as int),
{
    let dx: i128 = ax as i128 - bx as i128;
    let dy: i128 = ay as i128 - by as i128;
    assert(0 <= dx * dx <= (u32::MAX as int) * (u32::MAX as int)) by (nonlinear_arith)
        requires
            -(u32::MAX as int) <= dx <= u32::MAX,
    ;
    assert(0 <= dy * dy <= (u32::MAX as int) * (u32::MAX as int)) by (nonlinear_arith)
        requires
            -(u32::MAX as int) <= dy <= u32::MAX,
    ;
    (dx * dx + dy * dy) as u128
}

fn nearer_exec(x: u32, y: u32, a: Option<(u32, u32)>, b: Option<(u32, u32)>) -> (r: Option<(u32, u32)>)
    ensures
        r == nearer(x as int, y as int, a, b),
{
    match b {
        None => a,
        Some(q) => match a {
            None => b,
            Some(c) => if sq_dist_exec(x, y, q.0, q.1) < sq_dist_exec(x, y, c.0, c.1) {
                b
            } else {
                a
            },
        },
    }
}

/// Neighbour `k` of texel `(x, y)` at step `s`.
fn candidate_exec(g: &Vec<Option<(u32, u32)>>, w: u32, h: u32, x: u32, y: u32, s: u32, k: usize) -> (r: Option<(u32, u32)>)
    requires
        g@.len() == w * h,
        k < 9,
    ensures
        r == candidate(g@, w as int, h as int, x as int, y as int, s as int, k as int),
{
    let cx: i64 = (k % 3) as i64 - 1;
    let cy: i64 = (k / 3) as i64 - 1;
    assert(-(u32::MAX as int) <= cx * s <= u32::MAX) by (nonlinear_arith)
        requires
            -1 <= cx <= 1,
            s <= u32::MAX,
    ;
    assert(-(u32::MAX as int) <= cy * s <= u32::MAX) by (nonlinear_arith)
        requires
            -1 <= cy <= 1,
            s <= u32::MAX,
    ;
    let ox: i64 = cx * s as i64;
    let oy: i64 = cy * s as i64;
    let nx: i64 = x as i64 + ox;
    let ny: i64 = y as i64 + oy;
    let len = g.len();
    if 0 <= nx && nx < w as i64 && 0 <= ny && ny < h as i64 {
        proof {
            lemma_index_in_grid(nx as int, ny as int, w as int, h as int);
            assert(0 <= (ny as int) * (w as int) <= ny * w + nx);
        }
        let row: usize = ny as usize;
        let col: usize = nx as usize;
        assert(row * w <= row * w + col < len);
        let idx: usize = row * (w as usize) + col;
        g[idx]
    } else {
        None
    }
}

proof fn lemma_texel_coords(i: int, w: int, h: int)
    requires
        w >= 1,
        0 <= i < w * h,
    ensures
        0 <= i % w < w,
        0 <= i / w < h,
{
    lemma_fundamental_div_mod(i, w);
    assert(0 <= i / w < h) by (nonlinear_arith)
        requires
            0 <= i < w * h,
            i == w * (i / w) + i % w,
            0 <= i % w < w,
    ;
}

/// Seed pass over an occupancy grid.
pub fn seed_pass(occupancy: &Vec<bool>, w: u32, h: u32) -> (r: Vec<Option<(u32, u32)>>)
    requires
        w >= 1,
        occupancy@.len() == w * h,
    ensures
        r@ == seed_spec(occupancy@, w as int),
{
    let n = occupancy.len();
    let mut r: Vec<Option<(u32, u32)>> = Vec::new();
    let mut i: usize = 0;
    while i < n
        invariant
            w >= 1,
            n == occupancy@.len(),
            n == w * h,
            i <= n,
            r@.len() == i,
            forall|j: int| 0 <= j < i ==> #[trigger] r@[j] == seed_spec(occupancy@, w as int)[j],
        decreases n - i,
    {
        proof {
            lemma_texel_coords(i as int, w as int, h as int);
        }
        if occupancy[i] {
            r.push(Some(((i % w as usize) as u32, (i / w as usize) as u32)));
        } else {
            r.push(None);
        }
        i = i + 1;
    }
    assert(r@ =~= seed_spec(occupancy@, w as int));
    r
}

/// One propagation pass at step `s`.
pub fn propagate_pass(g: &Vec<Option<(u32, u32)>>, w: u32, h: u32, s: u32) -> (r: Vec<Option<(u32, u32)>>)
    requires
        w >= 1,
        g@.len() == w * h,
    ensures
        r@ == propagate_spec(g@, w as int, h as int, s as int),
{
    let n = g.len();
    let mut r: Vec<Option<(u32, u32)>> = Vec::new();
    let mut i: usize = 0;
    while i < n
        invariant
            w >= 1,
            n == g@.len(),
            n == w * h,
            i <= n,
            r@.len() == i,
            forall|j: int|
                0 <= j < i ==> #[trigger] r@[j] == propagate_spec(g@, w as int, h as int, s as int)[j],
        decreases n - i,
    {
        proof {
            lemma_texel_coords(i as int, w as int, h as int);
        }
        let x = (i % w as usize) as u32;
        let y = (i / w as usize) as u32;
        let mut cur: Option<(u32, u32)> = None;
        let mut k: usize = 0;
        while k < 9
            invariant
                g@.len() == w * h,
                k <= 9,
                cur == best(g@, w as int, h as int, x as int, y as int, s as int, k as nat),
            decreases 9 - k,
        {
            let c = candidate_exec(g, w, h, x, y, s, k);
            cur = nearer_exec(x, y, cur, c);
            k = k + 1;
        }
        r.push(cur);
        i = i + 1;
    }
    assert(r@ =~= propagate_spec(g@, w as int, h as int, s as int));
    r
}

/// Resolve pass: squared distance from each texel to the seed it holds.
pub fn resolve_pass(g: &Vec<Option<(u32, u32)>>, w: u32, h: u32) -> (r: Vec<Option<u128>>)
    requires
        w >= 1,
        g@.len() == w * h,
    ensures
        r@ == resolve_spec(g@, w as int),
{
    let n = g.len();
    let mut r: Vec<Option<u128>> = Vec::new();
    let mut i: usize = 0;
    while i < n
        invariant
            w >= 1,
            n == g@.len(),
            n == w * h,
            i <= n,
            r@.len() == i,
            forall|j: int| 0 <= j < i ==> #[trigger] r@[j] == resolve_spec(g@, w as int)[j],
        decreases n - i,
    {
        proof {
            lemma_texel_coords(i as int, w as int, h as int);
        }
        let x = (i % w as usize) as u32;
        let y = (i / w as usize) as u32;
        match g[i] {
            Some(q) => r.push(Some(sq_dist_exec(x, y, q.0, q.1))),
            None => r.push(None),
        }
        i = i + 1;
    }
    assert(r@ =~= resolve_spec(g@, w as int));
    r
}

/// Floods occupancy grid `occupancy` of a `w` by `h` target and resolves every texel to its
/// squared distance from the seed it ends with (`None` where no seed arrived). An empty target
/// is refused.
pub fn jump_flood(occupancy: &Vec<bool>, w: u32, h: u32) -> (r: Result<Vec<Option<u128>>, JfaError>)
    requires
        occupancy@.len() == w * h,
    ensures
        (w == 0 || h == 0) ==> r == Err::<Vec<Option<u128>>, JfaError>(JfaError::EmptyTarget),
        (w > 0 && h > 0) ==> (match r {
            Ok(d) => d@ == jump_flood_spec(occupancy@, w, h),
            Err(_) => false,
        }),
{
    if w == 0 || h == 0 {
        return Err(JfaError::EmptyTarget);
    }
    let steps = step_sizes(w, h);
    let ghost all = nat_seq(steps@);
    let ghost g0 = seed_spec(occupancy@, w as int);
    let mut g = seed_pass(occupancy, w, h);
    let mut j: usize = 0;
    assert(all.skip(0) =~= all);
    while j < steps.len()
        invariant
            w >= 1,
            g@.len() == w * h,
            j <= steps@.len(),
            all == nat_seq(steps@),
            flood_spec(g@, w as int, h as int, all.skip(j as int)) == flood_spec(
                g0,
                w as int,
                h as int,
                all,
            ),
        decreases steps@.len() - j,
    {
        proof {
            let rest = all.skip(j as int);
            assert(rest[0] == steps@[j as int] as nat);
            assert(rest.drop_first() =~= all.skip(j + 1));
        }
        g = propagate_pass(&g, w, h, steps[j]);
        j = j + 1;
    }
    proof {
        assert(all.skip(j as int) =~= Seq::<nat>::empty());
        assert(all.skip(0) =~= all);
    }
    Ok(resolve_pass(&g, w, h))
}

/// Every occupied texel of `g` holds a seed at distance zero from itself.
pub open spec fn seeds_hold_themselves(g: Seq<Option<(u32, u32)>>, occ: Seq<bool>, w: int) -> bool {
    forall|i: int|
        0 <= i < g.len() && #[trigger] occ[i] ==> ((g[i] is Some) && sq_dist(
            i % w,
            i / w,
            g[i]->Some_0.0 as int,
            g[i]->Some_0.1 as int,
        ) == 0)
}

proof fn lemma_sq_dist_nonneg(ax: int, ay: int, bx: int, by: int)
    ensures
        sq_dist(ax, ay, bx, by) >= 0,
{
    assert((ax - bx) * (ax - bx) >= 0) by (nonlinear_arith);
    assert((ay - by) * (ay - by) >= 0) by (nonlinear_arith);
}

proof fn lemma_best_keeps_zero(
    g: Seq<Option<(u32, u32)>>,
    w: int,
    h: int,
    x: int,
    y: int,
    s: int,
    k: nat,
)
    requires
        0 <= x < w,
        0 <= y < h,
        0 <= y * w + x < g.len(),
        g[y * w + x] is Some,
        sq_dist(x, y, g[y * w + x]->Some_0.0 as int, g[y * w + x]->Some_0.1 as int) == 0,
        k >= 5,
    ensures
        best(g, w, h, x, y, s, k) is Some,
        sq_dist(
            x,
            y,
            best(g, w, h, x, y, s, k)->Some_0.0 as int,
            best(g, w, h, x, y, s, k)->Some_0.1 as int,
        ) == 0,
    decreases k,
{
    if k == 5 {
        assert(4int % 3 == 1);
        assert(4int / 3 == 1);
        assert(offset(4, s).0 == 0 && offset(4, s).1 == 0);
        assert(candidate(g, w, h, x, y, s, 4) == g[y * w + x]);
        let a = best(g, w, h, x, y, s, 4);
        if a is Some {
            lemma_sq_dist_nonneg(x, y, a->Some_0.0 as int, a->Some_0.1 as int);
        }
    } else {
        lemma_best_keeps_zero(g, w, h, x, y, s, (k - 1) as nat);
        let c = candidate(g, w, h, x, y, s, k - 1);
        if c is Some {
            lemma_sq_dist_nonneg(x, y, c->Some_0.0 as int, c->Some_0.1 as int);
        }
    }
}

proof fn lemma_flood_keeps_self(
    g: Seq<Option<(u32, u32)>>,
    occ: Seq<bool>,
    w: int,
    h: int,
    steps: Seq<nat>,
)
    requires
        w >= 1,
        g.len() == w * h,
        occ.len() == w * h,
        seeds_hold_themselves(g, occ, w),
    ensures
        flood_spec(g, w, h, steps).len() == w * h,
        seeds_hold_themselves(flood_spec(g, w, h, steps), occ, w),
    decreases steps.len(),
{
    if steps.len() > 0 {
        let p = propagate_spec(g, w, h, steps[0] as int);
        assert forall|i: int| 0 <= i < p.len() && #[trigger] occ[i] implies ((p[i] is Some)
            && sq_dist(i % w, i / w, p[i]->Some_0.0 as int, p[i]->Some_0.1 as int) == 0) by {
            lemma_texel_coords(i, w, h);
            lemma_fundamental_div_mod(i, w);
            assert((i / w) * w + i % w == i) by (nonlinear_arith)
                requires
                    i == w * (i / w) + i % w,
            ;
            lemma_best_keeps_zero(g, w, h, i % w, i / w, steps[0] as int, 9);
        }
        lemma_flood_keeps_self(p, occ, w, h, steps.drop_first());
    }
}

proof fn lemma_seed_holds_itself(occ: Seq<bool>, w: u32, h: u32, i: int)
    requires
        w >= 1,
        occ.len() == w * h,
        0 <= i < occ.len(),
        occ[i],
    ensures
        seed_spec(occ, w as int)[i] is Some,
        sq_dist(
            i % (w as int),
            i / (w as int),
            seed_spec(occ, w as int)[i]->Some_0.0 as int,
            seed_spec(occ, w as int)[i]->Some_0.1 as int,
        ) == 0,
{
    let wi = w as int;
    lemma_texel_coords(i, wi, h as int);
    let c = seed_spec(occ, wi)[i]->Some_0;
    assert(c.0 as int == i % wi);
    assert(c.1 as int == i / wi);
}

/// Every occupied texel resolves to distance zero.
pub proof fn lemma_seed_texels_resolve_to_zero(occ: Seq<bool>, w: u32, h: u32)
    requires
        w >= 1,
        h >= 1,
        occ.len() == w * h,
    ensures
        forall|i: int|
            0 <= i < w * h && #[trigger] occ[i] ==> jump_flood_spec(occ, w, h)[i] == Some(0u128),
{
    let wi = w as int;
    let hi = h as int;
    let g0 = seed_spec(occ, wi);
    assert forall|i: int| 0 <= i < g0.len() && #[trigger] occ[i] implies ((g0[i] is Some)
        && sq_dist(i % wi, i / wi, g0[i]->Some_0.0 as int, g0[i]->Some_0.1 as int) == 0) by {
        lemma_seed_holds_itself(occ, w, h, i);
    }
    let steps = halving_from(initial_step_spec(w, h));
    lemma_flood_keeps_self(g0, occ, wi, hi, steps);
}

} // verus!
