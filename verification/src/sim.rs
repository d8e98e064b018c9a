//! The simulation engine: D2Q9 constants, the derived per-cell quantities
//! (density, momentum, equilibrium), and the double-buffered grid with its
//! collision, streaming and buffer-swap step.

use vstd::prelude::*;

use crate::array2d::Array2D;
use crate::cell::GridCell;
use crate::fixed::{mul_wide, sat64, sat_to_i64, tdiv, tdiv_any, tdiv_any_i128, tdiv_i128, SCALE};
use crate::fixed::{lemma_tdiv_exact, sat_add};

verus! {

/// Common denominator of the nine direction weights.
pub const WEIGHT_DENOM: i64 = 36;

/// Numerator of the weight of direction `i`, over [`WEIGHT_DENOM`]: the
/// center weighs 4/9, axis neighbors 1/9 each, diagonal neighbors 1/36 each.
pub open spec fn weight_num(i: int) -> i64 {
    if i == 4 {
        16
    } else if i == 1 || i == 3 || i == 5 || i == 7 {
        4
    } else {
        1
    }
}

/// The x component of the offset of direction `i`.
pub open spec fn vel_x(i: int) -> int {
    i % 3 - 1
}

/// The y component of the offset of direction `i`.
pub open spec fn vel_y(i: int) -> int {
    i / 3 - 1
}

/// The nine weight numerators in direction-index order.
pub open spec fn spec_weights() -> Seq<i64> {
    seq![1i64, 4i64, 1i64, 4i64, 16i64, 4i64, 1i64, 4i64, 1i64]
}

/// D2Q9 weights, as numerators over [`WEIGHT_DENOM`].
pub fn weights() -> (r: GridCell<i64>)
    ensures
        r@ == spec_weights(),
        forall|i: int| 0 <= i < 9 ==> r@[i] == weight_num(i),
{
    let r = GridCell::from_data([1i64, 4i64, 1i64, 4i64, 16i64, 4i64, 1i64, 4i64, 1i64]);
    proof {
        assert(r@ =~= spec_weights());
    }
    r
}

/// The nine direction offsets in direction-index order.
pub open spec fn spec_velocities() -> Seq<(i32, i32)> {
    seq![
        (-1i32, -1i32),
        (0i32, -1i32),
        (1i32, -1i32),
        (-1i32, 0i32),
        (0i32, 0i32),
        (1i32, 0i32),
        (-1i32, 1i32),
        (0i32, 1i32),
        (1i32, 1i32),
    ]
}

/// The integer offset of each direction: index `i` holds
/// `(i % 3 - 1, i / 3 - 1)`.
pub fn velocities_i32() -> (r: GridCell<(i32, i32)>)
    ensures
        r@ == spec_velocities(),
        forall|i: int|
            0 <= i < 9 ==> r@[i].0 as int == vel_x(i) && r@[i].1 as int == vel_y(i),
{
    let r = GridCell::from_data(
        [
            (-1i32, -1i32),
            (0i32, -1i32),
            (1i32, -1i32),
            (-1i32, 0i32),
            (0i32, 0i32),
            (1i32, 0i32),
            (-1i32, 1i32),
            (0i32, 1i32),
            (1i32, 1i32),
        ],
    );
    proof {
        assert(r@ =~= spec_velocities());
    }
    r
}

/// Translate a position by a direction offset.
pub fn relative_index(xy: (usize, usize), uv: (i32, i32)) -> (r: (usize, usize))
    requires
        0 <= xy.0 as int + uv.0 as int <= usize::MAX,
        0 <= xy.1 as int + uv.1 as int <= usize::MAX,
    ensures
        r.0 as int == xy.0 as int + uv.0 as int,
        r.1 as int == xy.1 as int + uv.1 as int,
{
    let (x, y) = xy;
    let (u, v) = uv;
    let rx = if u >= 0 {
        x + (u as usize)
    } else {
        x - ((-(u as i64)) as usize)
    };
    let ry = if v >= 0 {
        y + (v as usize)
    } else {
        y - ((-(v as i64)) as usize)
    };
    (rx, ry)
}

/// The populations of the first `n` directions, each scaled by its weight
/// numerator, summed.
pub open spec fn wsum(s: Seq<i64>, n: int) -> int
    decreases n,
{
    if n <= 0 {
        0
    } else {
        wsum(s, n - 1) + s[n - 1] * weight_num(n - 1)
    }
}

/// The populations of the first `n` directions, each scaled by its
/// direction's x offset, summed.
pub open spec fn xsum(s: Seq<i64>, n: int) -> int
    decreases n,
{
    if n <= 0 {
        0
    } else {
        xsum(s, n - 1) + s[n - 1] * vel_x(n - 1)
    }
}

/// The populations of the first `n` directions, each scaled by its
/// direction's y offset, summed.
pub open spec fn ysum(s: Seq<i64>, n: int) -> int
    decreases n,
{
    if n <= 0 {
        0
    } else {
        ysum(s, n - 1) + s[n - 1] * vel_y(n - 1)
    }
}

/// Local density: the weighted population sum, divided by the weight
/// denominator.
pub open spec fn spec_density(s: Seq<i64>) -> int {
    sat64(tdiv(wsum(s, 9), WEIGHT_DENOM as int))
}

/// The x component of the local momentum: populations summed against the
/// direction offsets.
pub open spec fn spec_momentum_x(s: Seq<i64>) -> int {
    sat64(xsum(s, 9))
}

/// The y component of the local momentum.
pub open spec fn spec_momentum_y(s: Seq<i64>) -> int {
    sat64(ysum(s, 9))
}

/// The dot product of direction `i`'s offset with the local momentum.
pub open spec fn spec_dot(s: Seq<i64>, i: int) -> int {
    sat64(vel_x(i) * spec_momentum_x(s) + vel_y(i) * spec_momentum_y(s))
}

/// The squared magnitude of the local momentum, in fixed-point form.
pub open spec fn spec_speed_sq(s: Seq<i64>) -> int {
    sat64(
        tdiv(spec_momentum_x(s) * spec_momentum_x(s), SCALE as int) + tdiv(
            spec_momentum_y(s) * spec_momentum_y(s),
            SCALE as int,
        ),
    )
}

/// The squared dot product of direction `i` with the momentum, in
/// fixed-point form.
pub open spec fn spec_dot_sq(s: Seq<i64>, i: int) -> int {
    sat64(tdiv(spec_dot(s, i) * spec_dot(s, i), SCALE as int))
}

/// The dimensionless equilibrium factor `1 + 3 d + 4.5 d^2 - 1.5 u^2` of
/// direction `i` (`d` the dot product, `u^2` the squared speed), in
/// fixed-point form.
pub open spec fn spec_eq_factor(s: Seq<i64>, i: int) -> int {
    sat64(
        SCALE as int + 3 * spec_dot(s, i) + tdiv(9 * spec_dot_sq(s, i), 2) - tdiv(
            3 * spec_speed_sq(s),
            2,
        ),
    )
}

/// The equilibrium population of direction `i`: the weight times the density
/// times the equilibrium factor.
pub open spec fn spec_equilibrium(s: Seq<i64>, i: int) -> int {
    sat64(
        tdiv(
            weight_num(i) as int * sat64(tdiv(spec_density(s) * spec_eq_factor(s, i), SCALE as int)),
            WEIGHT_DENOM as int,
        ),
    )
}

/// One population after relaxation toward its equilibrium value at rate
/// `omega`: `f + omega * (eq - f)`.
pub open spec fn spec_collide_one(f: int, eq: int, omega: int) -> int {
    sat64(f + tdiv(omega * sat64(eq - f), SCALE as int))
}

/// A population term scaled by a weight numerator stays well inside `i128`.
proof fn lemma_weighted_term_bound(a: int, w: int)
    requires
        i64::MIN <= a <= i64::MAX,
        0 <= w <= 16,
    ensures
        -0x8_0000_0000_0000_0000 <= a * w <= 0x8_0000_0000_0000_0000,
{
    assert(-0x8000_0000_0000_0000 <= a <= 0x7fff_ffff_ffff_ffff && 0 <= w <= 16
        ==> -0x8_0000_0000_0000_0000 <= a * w <= 0x8_0000_0000_0000_0000) by (nonlinear_arith);
}

/// A population term scaled by a direction offset stays in the `i64` range
/// up to sign.
proof fn lemma_unit_term_bound(a: int, e: int)
    requires
        i64::MIN <= a <= i64::MAX,
        -1 <= e <= 1,
    ensures
        -0x8000_0000_0000_0000 <= a * e <= 0x8000_0000_0000_0000,
{
    assert(-0x8000_0000_0000_0000 <= a <= 0x7fff_ffff_ffff_ffff && -1 <= e <= 1
        ==> -0x8000_0000_0000_0000 <= a * e <= 0x8000_0000_0000_0000) by (nonlinear_arith);
}

/// The scaled-down square of an `i64`-range value is nonnegative and fits
/// comfortably inside `i128`.
proof fn lemma_sq_scale_bound(a: int)
    requires
        i64::MIN <= a <= i64::MAX,
    ensures
        0 <= tdiv(a * a, SCALE as int),
        tdiv(a * a, SCALE as int) <= 0x4000_0000_0000_0000_0000_0000_0000,
{
    assert(a * a >= 0 && a * a <= 0x4000_0000_0000_0000_0000_0000_0000_0000) by (nonlinear_arith)
        requires
            -0x8000_0000_0000_0000 <= a <= 0x7fff_ffff_ffff_ffff,
    ;
    vstd::arithmetic::div_mod::lemma_div_is_ordered(
        a * a,
        0x4000_0000_0000_0000_0000_0000_0000_0000,
        SCALE as int,
    );
    assert(0x4000_0000_0000_0000_0000_0000_0000_0000int / 65536int
        == 0x4000_0000_0000_0000_0000_0000_0000int);
    vstd::arithmetic::div_mod::lemma_div_is_ordered(0, a * a, SCALE as int);
    vstd::arithmetic::div_mod::lemma_div_of0(SCALE as int);
}

/// Local density of a cell: the weighted population sum over
/// [`WEIGHT_DENOM`].
pub fn calc_total_density(cell: &GridCell<i64>) -> (r: i64)
    ensures
        r as int == spec_density(cell@),
{
    let w = weights();
    let mut acc: i128 = 0;
    let mut k: usize = 0;
    while k < 9
        invariant
            k <= 9,
            forall|i: int| 0 <= i < 9 ==> w@[i] == weight_num(i),
            acc as int == wsum(cell@, k as int),
            -(k as int) * 0x8_0000_0000_0000_0000 <= acc as int <= (k as int)
                * 0x8_0000_0000_0000_0000,
        decreases 9 - k,
    {
        let term: i128 = mul_wide(*cell.get_idx(k), *w.get_idx(k));
        proof {
            lemma_weighted_term_bound(cell@[k as int] as int, weight_num(k as int) as int);
        }
        acc = acc + term;
        k = k + 1;
    }
    sat_to_i64(tdiv_i128(acc, WEIGHT_DENOM as i128))
}

/// Local momentum of a cell: populations summed against the direction
/// offsets, per component. The engine uses this directly as the macroscopic
/// flow velocity.
pub fn calc_total_avg_velocity(cell: &GridCell<i64>) -> (r: (i64, i64))
    ensures
        r.0 as int == spec_momentum_x(cell@),
        r.1 as int == spec_momentum_y(cell@),
{
    let vels = velocities_i32();
    let mut ax: i128 = 0;
    let mut ay: i128 = 0;
    let mut k: usize = 0;
    while k < 9
        invariant
            k <= 9,
            forall|i: int|
                0 <= i < 9 ==> vels@[i].0 as int == vel_x(i) && vels@[i].1 as int == vel_y(i),
            ax as int == xsum(cell@, k as int),
            ay as int == ysum(cell@, k as int),
            -(k as int) * 0x8000_0000_0000_0000 <= ax as int <= (k as int) * 0x8000_0000_0000_0000,
            -(k as int) * 0x8000_0000_0000_0000 <= ay as int <= (k as int) * 0x8000_0000_0000_0000,
        decreases 9 - k,
    {
        let (u, v) = *vels.get_idx(k);
        let tx: i128 = mul_wide(*cell.get_idx(k), u as i64);
        let ty: i128 = mul_wide(*cell.get_idx(k), v as i64);
        proof {
            lemma_unit_term_bound(cell@[k as int] as int, vel_x(k as int));
            lemma_unit_term_bound(cell@[k as int] as int, vel_y(k as int));
        }
        ax = ax + tx;
        ay = ay + ty;
        k = k + 1;
    }
    (sat_to_i64(ax), sat_to_i64(ay))
}

/// The equilibrium distribution a cell relaxes toward: for each direction
/// `i` with weight `w` and offset `e`, `w * rho * (1 + 3 (e.u) + 4.5 (e.u)^2
/// - 1.5 |u|^2)`, with `rho` the density and `u` the momentum of the cell.
pub fn calc_equilibrium_predict(cell: &GridCell<i64>) -> (r: GridCell<i64>)
    ensures
        forall|i: int| 0 <= i < 9 ==> r@[i] as int == spec_equilibrium(cell@, i),
{
    let (mx, my) = calc_total_avg_velocity(cell);
    let rho = calc_total_density(cell);
    proof {
        lemma_sq_scale_bound(mx as int);
        lemma_sq_scale_bound(my as int);
    }
    let mxsq: i128 = tdiv_i128(mul_wide(mx, mx), SCALE as i128);
    let mysq: i128 = tdiv_i128(mul_wide(my, my), SCALE as i128);
    let usq: i64 = sat_to_i64(mxsq + mysq);
    let vels = velocities_i32();
    let w = weights();
    let mut out = GridCell::filled(0i64);
    let mut k: usize = 0;
    while k < 9
        invariant
            k <= 9,
            mx as int == spec_momentum_x(cell@),
            my as int == spec_momentum_y(cell@),
            rho as int == spec_density(cell@),
            usq as int == spec_speed_sq(cell@),
            forall|i: int|
                0 <= i < 9 ==> vels@[i].0 as int == vel_x(i) && vels@[i].1 as int == vel_y(i),
            forall|i: int| 0 <= i < 9 ==> w@[i] == weight_num(i),
            out@.len() == 9,
            forall|i: int| 0 <= i < k ==> out@[i] as int == spec_equilibrium(cell@, i),
        decreases 9 - k,
    {
        let (ui, vi) = *vels.get_idx(k);
        let ex: i64 = ui as i64;
        let ey: i64 = vi as i64;
        proof {
            assert(ex as int == vel_x(k as int));
            assert(ey as int == vel_y(k as int));
            lemma_unit_term_bound(mx as int, ex as int);
            lemma_unit_term_bound(my as int, ey as int);
        }
        let dot: i64 = sat_to_i64(mul_wide(ex, mx) + mul_wide(ey, my));
        proof {
            lemma_sq_scale_bound(dot as int);
        }
        let dsq: i64 = sat_to_i64(tdiv_i128(mul_wide(dot, dot), SCALE as i128));
        let t3: i128 = tdiv_i128(9i128 * (dsq as i128), 2);
        let t4: i128 = tdiv_i128(3i128 * (usq as i128), 2);
        let factor: i64 = sat_to_i64(SCALE as i128 + 3 * (dot as i128) + t3 - t4);
        let inner: i64 = sat_to_i64(tdiv_i128(mul_wide(rho, factor), SCALE as i128));
        let wk: i64 = *w.get_idx(k);
        let val: i64 = sat_to_i64(tdiv_i128(mul_wide(wk, inner), WEIGHT_DENOM as i128));
        proof {
            assert(val as int == spec_equilibrium(cell@, k as int));
        }
        out.set_idx(k, val);
        k = k + 1;
    }
    out
}

/// One cell after the collision phase: every population relaxed toward its
/// equilibrium value at rate `omega`.
fn collide_cell(cell: &GridCell<i64>, omega: i64) -> (r: GridCell<i64>)
    ensures
        forall|i: int|
            0 <= i < 9 ==> r@[i] as int == spec_collide_one(
                cell@[i] as int,
                spec_equilibrium(cell@, i),
                omega as int,
            ),
{
    let eq = calc_equilibrium_predict(cell);
    let mut out = GridCell::filled(0i64);
    let mut k: usize = 0;
    while k < 9
        invariant
            k <= 9,
            out@.len() == 9,
            forall|i: int| 0 <= i < 9 ==> eq@[i] as int == spec_equilibrium(cell@, i),
            forall|i: int|
                0 <= i < k ==> out@[i] as int == spec_collide_one(
                    cell@[i] as int,
                    spec_equilibrium(cell@, i),
                    omega as int,
                ),
        decreases 9 - k,
    {
        let f: i64 = *cell.get_idx(k);
        let e: i64 = *eq.get_idx(k);
        let delta: i64 = sat_to_i64((e as i128) - (f as i128));
        let corr: i128 = tdiv_i128(mul_wide(omega, delta), SCALE as i128);
        let nf: i64 = sat_to_i64((f as i128) + corr);
        out.set_idx(k, nf);
        k = k + 1;
    }
    out
}

/// The population that the streaming phase leaves in slot `i` of cell
/// `(x, y)`, reading the post-collision buffer `cur` and the obstacle mask
/// `bnd`. Writing `(u, v)` for direction `i`'s offset, the slot gathers:
/// the population streamed in from the interior source `(x - u, y - v)`
/// along `i` when `(x, y)` itself is not an obstacle, and the population of
/// the opposite direction bounced back in place when interior cell `(x, y)`
/// faces an obstacle at `(x - u, y - v)`. Border cells are never sources.
pub open spec fn spec_stream_slot(
    cur: Array2D<GridCell<i64>>,
    bnd: Array2D<bool>,
    x: int,
    y: int,
    i: int,
) -> int {
    let u = vel_x(i);
    let v = vel_y(i);
    let sx = x - u;
    let sy = y - v;
    let w = cur.spec_width() as int;
    let h = cur.spec_height() as int;
    let streamed = if 1 <= sx && sx < w - 1 && 1 <= sy && sy < h - 1 && !bnd.spec_at(x, y) {
        cur.spec_at(sx, sy)@[i] as int
    } else {
        0
    };
    let bounced = if 1 <= x && x < w - 1 && 1 <= y && y < h - 1 && bnd.spec_at(sx, sy) {
        cur.spec_at(x, y)@[8 - i] as int
    } else {
        0
    };
    sat64(streamed + bounced)
}

/// One destination cell of the streaming phase, gathered from the
/// post-collision buffer.
fn stream_cell(
    cur: &Array2D<GridCell<i64>>,
    bnd: &Array2D<bool>,
    x: usize,
    y: usize,
) -> (r: GridCell<i64>)
    requires
        cur.wf(),
        bnd.wf(),
        bnd.spec_width() == cur.spec_width(),
        bnd.spec_height() == cur.spec_height(),
        x < cur.spec_width(),
        y < cur.spec_height(),
    ensures
        forall|i: int| 0 <= i < 9 ==> r@[i] as int == spec_stream_slot(*cur, *bnd, x as int, y as int, i),
{
    let w = cur.width();
    let h = cur.height();
    let xi: i128 = x as i128;
    let yi: i128 = y as i128;
    let wi: i128 = w as i128;
    let hi: i128 = h as i128;
    let mut out = GridCell::filled(0i64);
    let mut k: usize = 0;
    while k < 9
        invariant
            k <= 9,
            cur.wf(),
            bnd.wf(),
            bnd.spec_width() == cur.spec_width(),
            bnd.spec_height() == cur.spec_height(),
            x < cur.spec_width(),
            y < cur.spec_height(),
            w == cur.spec_width(),
            h == cur.spec_height(),
            xi == x as int,
            yi == y as int,
            wi == w as int,
            hi == h as int,
            out@.len() == 9,
            forall|i: int|
                0 <= i < k ==> out@[i] as int == spec_stream_slot(*cur, *bnd, x as int, y as int, i),
        decreases 9 - k,
    {
        let u: i128 = (k % 3) as i128 - 1;
        let v: i128 = (k / 3) as i128 - 1;
        proof {
            assert(u == vel_x(k as int));
            assert(v == vel_y(k as int));
        }
        let sx: i128 = xi - u;
        let sy: i128 = yi - v;
        let source_interior: bool = 1 <= sx && sx < wi - 1 && 1 <= sy && sy < hi - 1;
        let streamed: i64 = if source_interior && !*bnd.get(x, y) {
            *cur.get(sx as usize, sy as usize).get_idx(k)
        } else {
            0
        };
        let dest_interior: bool = 1 <= xi && xi < wi - 1 && 1 <= yi && yi < hi - 1;
        let bounced: i64 = if dest_interior && *bnd.get(sx as usize, sy as usize) {
            *cur.get(x, y).get_idx(8 - k)
        } else {
            0
        };
        let val: i64 = sat_add(streamed, bounced);
        proof {
            assert(val as int == spec_stream_slot(*cur, *bnd, x as int, y as int, k as int));
        }
        out.set_idx(k, val);
        k = k + 1;
    }
    out
}

/// The nine direction weights sum to exactly one: their numerators sum to
/// the common denominator.
pub proof fn lemma_weights_normalized()
    ensures
        weight_num(0) + weight_num(1) + weight_num(2) + weight_num(3) + weight_num(4) + weight_num(
            5,
        ) + weight_num(6) + weight_num(7) + weight_num(8) == WEIGHT_DENOM,
{
}

/// The weighted, x and y population sums of an all-zero site vanish.
proof fn lemma_sums_of_zero(s: Seq<i64>, n: int)
    requires
        forall|i: int| 0 <= i < n ==> s[i] == 0i64,
    ensures
        wsum(s, n) == 0,
        xsum(s, n) == 0,
        ysum(s, n) == 0,
    decreases n,
{
    if n > 0 {
        lemma_sums_of_zero(s, n - 1);
    }
}

/// At rest - with zero momentum - the equilibrium of a site is exactly its
/// density scaled by each direction's weight: every dot product and the
/// speed vanish, so the equilibrium factor is exactly one.
pub proof fn lemma_equilibrium_at_rest(s: Seq<i64>)
    requires
        s.len() == 9,
        spec_momentum_x(s) == 0,
        spec_momentum_y(s) == 0,
    ensures
        forall|i: int|
            0 <= i < 9 ==> spec_equilibrium(s, i) == sat64(
                tdiv(weight_num(i) as int * spec_density(s), WEIGHT_DENOM as int),
            ),
{
    assert forall|i: int|
        0 <= i < 9 implies spec_equilibrium(s, i) == sat64(
        tdiv(weight_num(i) as int * spec_density(s), WEIGHT_DENOM as int),
    ) by {
        assert(vel_x(i) * spec_momentum_x(s) == 0);
        assert(vel_y(i) * spec_momentum_y(s) == 0);
        assert(spec_dot(s, i) == 0);
        assert(spec_dot_sq(s, i) == 0);
        assert(spec_momentum_x(s) * spec_momentum_x(s) == 0);
        assert(spec_momentum_y(s) * spec_momentum_y(s) == 0);
        assert(spec_speed_sq(s) == 0);
        assert(spec_eq_factor(s, i) == SCALE as int);
        lemma_tdiv_exact(spec_density(s), SCALE as int);
        assert(spec_density(s) * spec_eq_factor(s, i) == spec_density(s) * (SCALE as int));
        assert(sat64(tdiv(spec_density(s) * (SCALE as int), SCALE as int)) == spec_density(s));
    }
}

/// An all-zero site is a fixed point of the equilibrium: its density and
/// momentum vanish, and so does every equilibrium population.
pub proof fn lemma_equilibrium_zero_fixed_point(s: Seq<i64>)
    requires
        s.len() == 9,
        forall|i: int| 0 <= i < 9 ==> s[i] == 0i64,
    ensures
        spec_density(s) == 0,
        spec_momentum_x(s) == 0,
        spec_momentum_y(s) == 0,
        forall|i: int| 0 <= i < 9 ==> spec_equilibrium(s, i) == 0,
{
    lemma_sums_of_zero(s, 9);
    lemma_equilibrium_at_rest(s);
    assert forall|i: int| 0 <= i < 9 implies spec_equilibrium(s, i) == 0 by {
        assert(weight_num(i) as int * spec_density(s) == 0);
    }
}

/// Streaming never takes a border cell as a source: two post-collision
/// buffers that agree on every interior cell stream identically, whatever
/// their border cells hold.
pub proof fn lemma_border_never_source(
    g1: Array2D<GridCell<i64>>,
    g2: Array2D<GridCell<i64>>,
    bnd: Array2D<bool>,
    x: int,
    y: int,
    i: int,
)
    requires
        g1.spec_width() == g2.spec_width(),
        g1.spec_height() == g2.spec_height(),
        forall|a: int, b: int|
            1 <= a < g1.spec_width() - 1 && 1 <= b < g1.spec_height() - 1
                ==> g1.spec_at(a, b) == g2.spec_at(a, b),
        0 <= i < 9,
    ensures
        spec_stream_slot(g1, bnd, x, y, i) == spec_stream_slot(g2, bnd, x, y, i),
{
}

/// The error of engine construction with dimensions too small to hold a
/// streaming interior.
#[derive(Clone, Copy, Debug, PartialEq, Eq, Structural)]
pub enum SimError {
    InvalidConfig,
}

/// Whether `(x, y)` lies on the one-cell border ring of a `w` by `h` grid.
pub open spec fn spec_ring(x: int, y: int, w: int, h: int) -> bool {
    x == 0 || y == 0 || x == w - 1 || y == h - 1
}

/// The default obstacle mask: a solid one-cell-thick ring around the full
/// domain, everything else fluid.
pub fn default_bounds(width: usize, height: usize) -> (r: Array2D<bool>)
    requires
        width >= 1,
        height >= 1,
        width * height <= usize::MAX,
    ensures
        r.wf(),
        r.spec_width() == width,
        r.spec_height() == height,
        forall|x: int, y: int|
            0 <= x < width && 0 <= y < height ==> r.spec_at(x, y) == spec_ring(
                x,
                y,
                width as int,
                height as int,
            ),
{
    let mut bounds = Array2D::new(width, height, false);
    let mut i: usize = 0;
    while i < width
        invariant
            i <= width,
            bounds.wf(),
            bounds.spec_width() == width,
            bounds.spec_height() == height,
            width >= 1,
            height >= 1,
            forall|x: int, y: int|
                0 <= x < width && 0 <= y < height ==> bounds.spec_at(x, y) == (x < i && (y == 0
                    || y == height - 1)),
        decreases width - i,
    {
        bounds.set(i, 0, true);
        bounds.set(i, height - 1, true);
        i = i + 1;
    }
    let mut j: usize = 0;
    while j < height
        invariant
            j <= height,
            bounds.wf(),
            bounds.spec_width() == width,
            bounds.spec_height() == height,
            width >= 1,
            height >= 1,
            forall|x: int, y: int|
                0 <= x < width && 0 <= y < height ==> bounds.spec_at(x, y) == ((y == 0 || y == height
                    - 1) || (y < j && (x == 0 || x == width - 1))),
        decreases height - j,
    {
        bounds.set(0, j, true);
        bounds.set(width - 1, j, true);
        j = j + 1;
    }
    bounds
}

/// The fixed-point population values that the weights take when read as a
/// unit-density site: weight `i` over the weight denominator, scaled.
pub open spec fn spec_weight_population(i: int) -> int {
    sat64(tdiv(weight_num(i) as int * SCALE as int, WEIGHT_DENOM as int))
}

/// A site rescaled to unit density: every population divided by the site's
/// density, or the weight table itself when the density is zero.
pub fn force_unit_density(cell: GridCell<i64>) -> (r: GridCell<i64>)
    ensures
        spec_density(cell@) == 0 ==> forall|i: int|
            0 <= i < 9 ==> r@[i] as int == spec_weight_population(i),
        spec_density(cell@) != 0 ==> forall|i: int|
            0 <= i < 9 ==> r@[i] as int == sat64(
                tdiv_any(cell@[i] * SCALE as int, spec_density(cell@)),
            ),
{
    let total = calc_total_density(&cell);
    let mut out = GridCell::filled(0i64);
    if total == 0 {
        let w = weights();
        let mut k: usize = 0;
        while k < 9
            invariant
                k <= 9,
                forall|i: int| 0 <= i < 9 ==> w@[i] == weight_num(i),
                out@.len() == 9,
                forall|i: int| 0 <= i < k ==> out@[i] as int == spec_weight_population(i),
            decreases 9 - k,
        {
            let val: i64 = sat_to_i64(
                tdiv_i128(mul_wide(*w.get_idx(k), SCALE), WEIGHT_DENOM as i128),
            );
            out.set_idx(k, val);
            k = k + 1;
        }
        out
    } else {
        let mut k: usize = 0;
        while k < 9
            invariant
                k <= 9,
                total as int == spec_density(cell@),
                total != 0,
                out@.len() == 9,
                forall|i: int|
                    0 <= i < k ==> out@[i] as int == sat64(
                        tdiv_any(cell@[i] * SCALE as int, spec_density(cell@)),
                    ),
            decreases 9 - k,
        {
            let val: i64 = sat_to_i64(
                tdiv_any_i128(mul_wide(*cell.get_idx(k), SCALE), total as i128),
            );
            out.set_idx(k, val);
            k = k + 1;
        }
        out
    }
}

/// The position as grid coordinates, when it lies inside the container.
pub fn bound_check<T>(pos: (i32, i32), arr: &Array2D<T>) -> (r: Option<(usize, usize)>)
    ensures
        r is Some <==> (0 <= (pos.0 as int) < arr.spec_width() && 0 <= (pos.1 as int)
            < arr.spec_height()),
        r matches Some(c) ==> c.0 as int == pos.0 as int && c.1 as int == pos.1 as int,
{
    let (x, y) = pos;
    if x >= 0 && y >= 0 && (x as usize) < arr.width() && (y as usize) < arr.height() {
        Some((x as usize, y as usize))
    } else {
        None
    }
}

/// A square is never negative.
proof fn lemma_sq_nonneg(u: int)
    ensures
        u * u >= 0,
{
    assert(u * u >= 0) by (nonlinear_arith);
}

/// A value whose square is below a nonnegative bound's square lies strictly
/// between that bound and its negation.
proof fn lemma_sq_lt(u: int, r: int)
    requires
        r >= 0,
        u * u < r * r,
    ensures
        -r < u < r,
{
    assert(r >= 0 && u * u < r * r ==> -r < u && u < r) by (nonlinear_arith);
}

/// Squares of small values stay inside the `i32` range.
proof fn lemma_small_sq_bound(u: int)
    requires
        -30001 <= u <= 30001,
    ensures
        0 <= u * u <= 900_060_001,
{
    assert(-30001 <= u <= 30001 ==> 0 <= u * u <= 900_060_001) by (nonlinear_arith);
}

/// Mark solid every grid cell whose squared distance to `center` is below
/// the squared radius; every other cell keeps its value. Cells of the circle
/// outside the grid are ignored.
pub fn bound_circle(arr: &mut Array2D<bool>, center: (i32, i32), radius: i32)
    requires
        old(arr).wf(),
        0 <= radius <= 30000,
        -0x4000_0000 <= center.0 <= 0x4000_0000,
        -0x4000_0000 <= center.1 <= 0x4000_0000,
    ensures
        final(arr).wf(),
        final(arr).spec_width() == old(arr).spec_width(),
        final(arr).spec_height() == old(arr).spec_height(),
        forall|a: int, b: int|
            0 <= a < final(arr).spec_width() && 0 <= b < final(arr).spec_height()
                ==> final(arr).spec_at(a, b) == (old(arr).spec_at(a, b) || (a - center.0) * (a
                - center.0) + (b - center.1) * (b - center.1) < radius * radius),
{
    let (cx, cy) = center;
    let mut i: i32 = -radius;
    while i <= radius
        invariant
            -radius <= i <= radius + 1,
            0 <= radius <= 30000,
            -0x4000_0000 <= cx <= 0x4000_0000,
            -0x4000_0000 <= cy <= 0x4000_0000,
            arr.wf(),
            arr.spec_width() == old(arr).spec_width(),
            arr.spec_height() == old(arr).spec_height(),
            forall|a: int, b: int|
                0 <= a < arr.spec_width() && 0 <= b < arr.spec_height() ==> arr.spec_at(a, b) == (
                old(arr).spec_at(a, b) || (a - cx >= -radius && a - cx < i && (a - cx) * (a - cx)
                    + (b - cy) * (b - cy) < radius * radius)),
        decreases radius + 1 - i,
    {
        let mut j: i32 = -radius;
        while j <= radius
            invariant
                -radius <= i <= radius,
                -radius <= j <= radius + 1,
                0 <= radius <= 30000,
                -0x4000_0000 <= cx <= 0x4000_0000,
                -0x4000_0000 <= cy <= 0x4000_0000,
                arr.wf(),
                arr.spec_width() == old(arr).spec_width(),
                arr.spec_height() == old(arr).spec_height(),
                forall|a: int, b: int|
                    0 <= a < arr.spec_width() && 0 <= b < arr.spec_height() ==> arr.spec_at(a, b)
                        == (old(arr).spec_at(a, b) || (a - cx >= -radius && a - cx < i && (a - cx)
                        * (a - cx) + (b - cy) * (b - cy) < radius * radius) || (a - cx == i && b
                        - cy >= -radius && b - cy < j && (a - cx) * (a - cx) + (b - cy) * (b - cy)
                        < radius * radius)),
            decreases radius + 1 - j,
        {
            proof {
                lemma_small_sq_bound(i as int);
                lemma_small_sq_bound(j as int);
                lemma_small_sq_bound(radius as int);
            }
            if i * i + j * j < radius * radius {
                match bound_check((i + cx, j + cy), arr) {
                    Some(coord) => {
                        arr.set(coord.0, coord.1, true);
                    },
                    None => {},
                }
            }
            j = j + 1;
        }
        proof {
            assert forall|a: int, b: int|
                0 <= a < arr.spec_width() && 0 <= b < arr.spec_height() implies arr.spec_at(a, b)
                == (old(arr).spec_at(a, b) || (a - cx >= -radius && a - cx < i + 1 && (a - cx) * (a
                - cx) + (b - cy) * (b - cy) < radius * radius)) by {
                if a - cx == i && (a - cx) * (a - cx) + (b - cy) * (b - cy) < radius * radius {
                    lemma_sq_nonneg(a - cx);
                    lemma_sq_lt(b - cy, radius as int);
                }
            }
        }
        i = i + 1;
    }
    proof {
        assert forall|a: int, b: int|
            0 <= a < arr.spec_width() && 0 <= b < arr.spec_height() implies arr.spec_at(a, b) == (
        old(arr).spec_at(a, b) || (a - cx) * (a - cx) + (b - cy) * (b - cy) < radius
            * radius) by {
            if (a - cx) * (a - cx) + (b - cy) * (b - cy) < radius * radius {
                lemma_sq_nonneg(b - cy);
                lemma_sq_lt(a - cx, radius as int);
            }
        }
    }
}

/// The double-buffered lattice: the current buffer (read by the next step),
/// the next buffer (written by it), and the obstacle mask, all of one shape.
pub struct Sim {
    read: Array2D<GridCell<i64>>,
    write: Array2D<GridCell<i64>>,
    bounds: Array2D<bool>,
}

impl Sim {
    /// The buffer the next step reads.
    pub closed spec fn spec_grid(&self) -> Array2D<GridCell<i64>> {
        self.read
    }

    /// The buffer the next step streams into.
    pub closed spec fn spec_next(&self) -> Array2D<GridCell<i64>> {
        self.write
    }

    /// The obstacle mask.
    pub closed spec fn spec_bounds(&self) -> Array2D<bool> {
        self.bounds
    }

    pub open spec fn spec_width(&self) -> usize {
        self.spec_grid().spec_width()
    }

    pub open spec fn spec_height(&self) -> usize {
        self.spec_grid().spec_height()
    }

    /// All three grids share one shape, with room for a streaming interior.
    pub open spec fn wf(&self) -> bool {
        &&& self.spec_grid().wf()
        &&& self.spec_next().wf()
        &&& self.spec_bounds().wf()
        &&& self.spec_next().spec_width() == self.spec_width()
        &&& self.spec_next().spec_height() == self.spec_height()
        &&& self.spec_bounds().spec_width() == self.spec_width()
        &&& self.spec_bounds().spec_height() == self.spec_height()
        &&& self.spec_width() >= 3
        &&& self.spec_height() >= 3
    }

    /// A `width` by `height` engine with all populations zero and the
    /// default solid-ring obstacle mask. Dimensions without a one-cell
    /// interior are rejected.
    pub fn new(width: usize, height: usize) -> (r: Result<Sim, SimError>)
        requires
            width * height <= usize::MAX,
        ensures
            r is Ok <==> (width >= 3 && height >= 3),
            r matches Err(e) ==> e == SimError::InvalidConfig,
            r matches Ok(s) ==> {
                &&& s.wf()
                &&& s.spec_width() == width
                &&& s.spec_height() == height
                &&& forall|x: int, y: int, i: int|
                    0 <= x < width && 0 <= y < height && 0 <= i < 9 ==> s.spec_grid().spec_at(
                        x,
                        y,
                    )@[i] == 0i64
                &&& forall|x: int, y: int, i: int|
                    0 <= x < width && 0 <= y < height && 0 <= i < 9 ==> s.spec_next().spec_at(
                        x,
                        y,
                    )@[i] == 0i64
                &&& forall|x: int, y: int|
                    0 <= x < width && 0 <= y < height ==> s.spec_bounds().spec_at(x, y)
                        == spec_ring(x, y, width as int, height as int)
            },
    {
        if width < 3 || height < 3 {
            return Err(SimError::InvalidConfig);
        }
        let zero = GridCell::filled(0i64);
        let read = Array2D::new(width, height, zero);
        let write = Array2D::new(width, height, zero);
        let bounds = default_bounds(width, height);
        Ok(Sim { read, write, bounds })
    }

    /// Read access to the buffer that the next step call treats as input.
    pub fn grid(&self) -> (r: &Array2D<GridCell<i64>>)
        ensures
            *r == self.spec_grid(),
    {
        &self.read
    }

    /// Write access to the buffer that the next step call treats as input:
    /// mutations made here are visible to that step's collision phase.
    pub fn grid_mut(&mut self) -> (r: &mut Array2D<GridCell<i64>>)
        ensures
            *r == old(self).spec_grid(),
            final(self).spec_grid() == *final(r),
            final(self).spec_next() == old(self).spec_next(),
            final(self).spec_bounds() == old(self).spec_bounds(),
    {
        &mut self.read
    }

    /// Read access to the obstacle mask.
    pub fn bounds(&self) -> (r: &Array2D<bool>)
        ensures
            *r == self.spec_bounds(),
    {
        &self.bounds
    }

    /// Write access to the obstacle mask, for marking interior cells solid.
    pub fn bounds_mut(&mut self) -> (r: &mut Array2D<bool>)
        ensures
            *r == old(self).spec_bounds(),
            final(self).spec_bounds() == *final(r),
            final(self).spec_grid() == old(self).spec_grid(),
            final(self).spec_next() == old(self).spec_next(),
    {
        &mut self.bounds
    }

    /// One simulation tick: every cell of the current buffer relaxes toward
    /// its equilibrium at rate `omega`, the result streams into the next
    /// buffer with bounce-back at obstacles, and the buffers swap roles.
    /// After the call the current buffer holds the streamed populations,
    /// and the other buffer holds the post-collision populations it was
    /// streamed from.
    pub fn step(&mut self, omega: i64)
        requires
            old(self).wf(),
        ensures
            final(self).wf(),
            final(self).spec_width() == old(self).spec_width(),
            final(self).spec_height() == old(self).spec_height(),
            final(self).spec_bounds() == old(self).spec_bounds(),
            forall|x: int, y: int, i: int|
                0 <= x < final(self).spec_width() && 0 <= y < final(self).spec_height() && 0 <= i
                    < 9 ==> final(self).spec_next().spec_at(x, y)@[i] as int == spec_collide_one(
                    old(self).spec_grid().spec_at(x, y)@[i] as int,
                    spec_equilibrium(old(self).spec_grid().spec_at(x, y)@, i),
                    omega as int,
                ),
            forall|x: int, y: int, i: int|
                0 <= x < final(self).spec_width() && 0 <= y < final(self).spec_height() && 0 <= i
                    < 9 ==> final(self).spec_grid().spec_at(x, y)@[i] as int == spec_stream_slot(
                    final(self).spec_next(),
                    final(self).spec_bounds(),
                    x,
                    y,
                    i,
                ),
    {
        let w = self.read.width();
        let h = self.read.height();
        // Collision phase, in place in the current buffer.
        let mut y: usize = 0;
        while y < h
            invariant
                y <= h,
                self.read.wf(),
                self.read.spec_width() == w,
                self.read.spec_height() == h,
                w == old(self).spec_width(),
                h == old(self).spec_height(),
                self.write == old(self).spec_next(),
                self.bounds == old(self).spec_bounds(),
                old(self).wf(),
                forall|xx: int, yy: int, i: int|
                    0 <= xx < w && 0 <= yy < y && 0 <= i < 9 ==> #[trigger] self.read.spec_at(
                        xx,
                        yy,
                    )@[i] as int == spec_collide_one(
                        old(self).spec_grid().spec_at(xx, yy)@[i] as int,
                        spec_equilibrium(old(self).spec_grid().spec_at(xx, yy)@, i),
                        omega as int,
                    ),
                forall|xx: int, yy: int|
                    0 <= xx < w && y <= yy < h ==> #[trigger] self.read.spec_at(xx, yy) == old(
                        self,
                    ).spec_grid().spec_at(xx, yy),
            decreases h - y,
        {
            let mut x: usize = 0;
            while x < w
                invariant
                    x <= w,
                    y < h,
                    self.read.wf(),
                    self.read.spec_width() == w,
                    self.read.spec_height() == h,
                    w == old(self).spec_width(),
                    h == old(self).spec_height(),
                    self.write == old(self).spec_next(),
                    self.bounds == old(self).spec_bounds(),
                    old(self).wf(),
                    forall|xx: int, yy: int, i: int|
                        0 <= xx < w && 0 <= yy < y && 0 <= i < 9 ==> #[trigger] self.read.spec_at(
                            xx,
                            yy,
                        )@[i] as int == spec_collide_one(
                            old(self).spec_grid().spec_at(xx, yy)@[i] as int,
                            spec_equilibrium(old(self).spec_grid().spec_at(xx, yy)@, i),
                            omega as int,
                        ),
                    forall|xx: int, i: int|
                        0 <= xx < x && 0 <= i < 9 ==> #[trigger] self.read.spec_at(
                            xx,
                            y as int,
                        )@[i] as int == spec_collide_one(
                            old(self).spec_grid().spec_at(xx, y as int)@[i] as int,
                            spec_equilibrium(old(self).spec_grid().spec_at(xx, y as int)@, i),
                            omega as int,
                        ),
                    forall|xx: int, yy: int|
                        0 <= xx < w && y < yy < h ==> #[trigger] self.read.spec_at(xx, yy) == old(
                            self,
                        ).spec_grid().spec_at(xx, yy),
                    forall|xx: int|
                        x <= xx < w ==> #[trigger] self.read.spec_at(xx, y as int) == old(
                            self,
                        ).spec_grid().spec_at(xx, y as int),
                decreases w - x,
            {
                let c: GridCell<i64> = *self.read.get(x, y);
                let nc = collide_cell(&c, omega);
                self.read.set(x, y, nc);
                x = x + 1;
            }
            y = y + 1;
        }
        // Streaming phase: every interior cell pushes each population to its
        // direction's neighbor, or reflects it in place into the opposite
        // slot when that neighbor is solid. A destination slot can receive
        // at most one streamed and one bounced population, so the sweep is
        // computed here as a gather per destination cell, writing the next
        // buffer afresh: the totals are the same as pushing.
        let mut y: usize = 0;
        while y < h
            invariant
                y <= h,
                self.read.wf(),
                self.read.spec_width() == w,
                self.read.spec_height() == h,
                self.write.wf(),
                self.write.spec_width() == w,
                self.write.spec_height() == h,
                self.bounds.wf(),
                self.bounds.spec_width() == w,
                self.bounds.spec_height() == h,
                w == old(self).spec_width(),
                h == old(self).spec_height(),
                w >= 3,
                h >= 3,
                self.bounds == old(self).spec_bounds(),
                forall|xx: int, yy: int, i: int|
                    0 <= xx < w && 0 <= yy < h && 0 <= i < 9 ==> #[trigger] self.read.spec_at(
                        xx,
                        yy,
                    )@[i] as int == spec_collide_one(
                        old(self).spec_grid().spec_at(xx, yy)@[i] as int,
                        spec_equilibrium(old(self).spec_grid().spec_at(xx, yy)@, i),
                        omega as int,
                    ),
                forall|xx: int, yy: int, i: int|
                    0 <= xx < w && 0 <= yy < y && 0 <= i < 9 ==> #[trigger] self.write.spec_at(
                        xx,
                        yy,
                    )@[i] as int == spec_stream_slot(self.read, self.bounds, xx, yy, i),
            decreases h - y,
        {
            let mut x: usize = 0;
            while x < w
                invariant
                    x <= w,
                    y < h,
                    self.read.wf(),
                    self.read.spec_width() == w,
                    self.read.spec_height() == h,
                    self.write.wf(),
                    self.write.spec_width() == w,
                    self.write.spec_height() == h,
                    self.bounds.wf(),
                    self.bounds.spec_width() == w,
                    self.bounds.spec_height() == h,
                    w == old(self).spec_width(),
                    h == old(self).spec_height(),
                    w >= 3,
                    h >= 3,
                    self.bounds == old(self).spec_bounds(),
                    forall|xx: int, yy: int, i: int|
                        0 <= xx < w && 0 <= yy < h && 0 <= i < 9 ==> #[trigger] self.read.spec_at(
                            xx,
                            yy,
                        )@[i] as int == spec_collide_one(
                            old(self).spec_grid().spec_at(xx, yy)@[i] as int,
                            spec_equilibrium(old(self).spec_grid().spec_at(xx, yy)@, i),
                            omega as int,
                        ),
                    forall|xx: int, yy: int, i: int|
                        0 <= xx < w && 0 <= yy < y && 0 <= i < 9 ==> #[trigger] self.write.spec_at(
                            xx,
                            yy,
                        )@[i] as int == spec_stream_slot(self.read, self.bounds, xx, yy, i),
                    forall|xx: int, i: int|
                        0 <= xx < x && 0 <= i < 9 ==> #[trigger] self.write.spec_at(
                            xx,
                            y as int,
                        )@[i] as int == spec_stream_slot(self.read, self.bounds, xx, y as int, i),
                decreases w - x,
            {
                let nc = stream_cell(&self.read, &self.bounds, x, y);
                self.write.set(x, y, nc);
                x = x + 1;
            }
            y = y + 1;
        }
        core::mem::swap(&mut self.read, &mut self.write);
    }
}

} // verus!

