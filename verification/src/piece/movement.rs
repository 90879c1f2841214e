//! General piece movement logic.

use crate::board::{Board, BoardModel};
use crate::coordinate::{spec_abs, IVec2, Vec2};
use crate::piece::Piece;
use crate::sides::Color;
use gcd::Gcd;
use vstd::arithmetic::div_mod::{
    lemma_div_multiples_vanish,
    lemma_fundamental_div_mod,
    lemma_mod_multiples_basic,
    lemma_small_mod,
};
use vstd::prelude::*;

verus! {

/// A delta that is no whole number of strides.
#[derive(Debug, Clone, Copy, PartialEq, Eq, Structural)]
pub struct StrideLengthError {
    pub stride: IVec2,
    pub delta: IVec2,
}

/// A piece that stands in the way.
#[derive(Debug, Clone, Copy, PartialEq, Eq, Structural)]
pub struct BlockerError {
    pub position: Vec2,
    pub piece: Piece,
    pub color: Color,
}

/// Whether `d` is positive and divides both `a` and `b`.
pub open spec fn common_divisor(d: int, a: int, b: int) -> bool {
    d > 0 && a % d == 0 && b % d == 0
}

/// The greatest common divisor of `a` and `b` that is at most `bound`, or 0
/// where there is none.
pub open spec fn greatest_common_divisor_below(a: int, b: int, bound: int) -> int
    decreases bound,
{
    if bound <= 0 {
        0
    } else if common_divisor(bound, a, b) {
        bound
    } else {
        greatest_common_divisor_below(a, b, bound - 1)
    }
}

/// The greatest common divisor of two numbers that are not negative; 0 for
/// two zeros.
pub open spec fn spec_gcd(a: int, b: int) -> int {
    greatest_common_divisor_below(a, b, if a > b { a } else { b })
}

/// The result of dividing both coordinates of `delta` by the greatest common
/// divisor of their absolute values, together with that divisor.
pub open spec fn spec_get_stride(delta: IVec2) -> (IVec2, u8) {
    let g = spec_gcd(spec_abs(delta.x as int), spec_abs(delta.y as int));
    (IVec2::at(delta.x as int / g, delta.y as int / g), g as u8)
}

/// Whether `n` strides make up `delta`.
pub open spec fn spans(stride: IVec2, n: int, delta: IVec2) -> bool {
    n * stride.x == delta.x && n * stride.y == delta.y
}

/// The tile that `i` strides lead to from `origin`.
pub open spec fn step(origin: Vec2, stride: IVec2, i: int) -> Vec2 {
    Vec2::at(origin.x + stride.x * i, origin.y + stride.y * i)
}

/// The piece of the given color at the position, as an obstacle.
pub open spec fn spec_check_color_blocker(position: Vec2, board: BoardModel, color: Color) -> Result<
    (),
    BlockerError,
> {
    match board.get(position, color) {
        Some(piece) => Err(BlockerError { position, piece, color }),
        None => Ok(()),
    }
}

/// The piece at the position, whatever its color, as an obstacle.
pub open spec fn spec_check_any_blocker(position: Vec2, board: BoardModel) -> Result<
    (),
    BlockerError,
> {
    match board.get_either(position) {
        Some((piece, color)) => Err(BlockerError { position, piece, color }),
        None => Ok(()),
    }
}

/// The first piece met on the way from `origin` along `stride`, from the
/// `from`-th stride on and before the `distance`-th.
pub open spec fn first_blocker(
    origin: Vec2,
    stride: IVec2,
    from: int,
    distance: int,
    board: BoardModel,
) -> Result<(), BlockerError>
    decreases distance - from,
{
    if from >= distance {
        Ok(())
    } else {
        match spec_check_any_blocker(step(origin, stride, from), board) {
            Err(e) => Err(e),
            Ok(_) => first_blocker(origin, stride, from + 1, distance, board),
        }
    }
}

/// The first piece that stands strictly between `origin` and the tile
/// `distance` strides away.
pub open spec fn spec_check_blockers(
    origin: Vec2,
    stride: IVec2,
    distance: int,
    board: BoardModel,
) -> Result<(), BlockerError> {
    first_blocker(origin, stride, 1, distance, board)
}

/// Whether the tiles strictly between `origin` and the tile `distance`
/// strides away are all empty.
pub open spec fn path_is_clear(
    origin: Vec2,
    stride: IVec2,
    distance: int,
    board: BoardModel,
) -> bool {
    forall|i: int| 1 <= i < distance ==> board.get_either(#[trigger] step(origin, stride, i)) is None
}

/// A search for the first blocker finds none exactly when every tile it
/// looks at is empty.
pub proof fn lemma_first_blocker(
    origin: Vec2,
    stride: IVec2,
    from: int,
    distance: int,
    board: BoardModel,
)
    ensures
        first_blocker(origin, stride, from, distance, board) is Ok <==> (forall|i: int|
            from <= i < distance ==> board.get_either(#[trigger] step(origin, stride, i)) is None),
    decreases distance - from,
{
    if from < distance {
        lemma_first_blocker(origin, stride, from + 1, distance, board);
        if first_blocker(origin, stride, from, distance, board) is Ok {
            assert forall|i: int| from <= i < distance implies board.get_either(
                #[trigger] step(origin, stride, i),
            ) is None by {
                if i > from {
                }
            }
        } else {
            if board.get_either(step(origin, stride, from)) is None {
                let i = choose|i: int|
                    from + 1 <= i < distance && !(board.get_either(
                        #[trigger] step(origin, stride, i),
                    ) is None);
                assert(from <= i < distance);
            }
        }
    }
}

/// A path is free of blockers exactly when all tiles strictly between its
/// ends are empty.
pub proof fn lemma_check_blockers(origin: Vec2, stride: IVec2, distance: int, board: BoardModel)
    ensures
        spec_check_blockers(origin, stride, distance, board) is Ok <==> path_is_clear(
            origin,
            stride,
            distance,
            board,
        ),
{
    lemma_first_blocker(origin, stride, 1, distance, board);
}

/// Between a tile and a tile that a whole number of strides leads to, every
/// stride lands on the board.
pub proof fn lemma_steps_stay_on_board(origin: Vec2, stride: IVec2, distance: int, i: int)
    requires
        origin.wf(),
        Vec2::spec_is_valid(origin.x + stride.x * distance, origin.y + stride.y * distance),
        0 <= i <= distance,
    ensures
        Vec2::spec_is_valid(origin.x + stride.x * i, origin.y + stride.y * i),
        step(origin, stride, i).wf(),
        step(origin, stride, i).x == origin.x + stride.x * i,
        step(origin, stride, i).y == origin.y + stride.y * i,
{
    let sx = stride.x as int;
    let sy = stride.y as int;
    assert(sx >= 0 ==> 0 <= sx * i <= sx * distance) by (nonlinear_arith)
        requires
            0 <= i <= distance,
    ;
    assert(sx <= 0 ==> sx * distance <= sx * i <= 0) by (nonlinear_arith)
        requires
            0 <= i <= distance,
    ;
    assert(sy >= 0 ==> 0 <= sy * i <= sy * distance) by (nonlinear_arith)
        requires
            0 <= i <= distance,
    ;
    assert(sy <= 0 ==> sy * distance <= sy * i <= 0) by (nonlinear_arith)
        requires
            0 <= i <= distance,
    ;
    assert((sx - sy) * i == sx * i - sy * i) by (nonlinear_arith);
    assert((sx - sy) * distance == sx * distance - sy * distance) by (nonlinear_arith);
    assert(sx - sy >= 0 ==> 0 <= (sx - sy) * i <= (sx - sy) * distance) by (nonlinear_arith)
        requires
            0 <= i <= distance,
    ;
    assert(sx - sy <= 0 ==> (sx - sy) * distance <= (sx - sy) * i <= 0) by (nonlinear_arith)
        requires
            0 <= i <= distance,
    ;
}

/// The search for a common divisor from a positive bound finds one, since 1
/// divides every number.
pub proof fn lemma_search_finds_divisor(a: int, b: int, bound: int)
    requires
        bound >= 1,
    ensures
        common_divisor(greatest_common_divisor_below(a, b, bound), a, b),
        1 <= greatest_common_divisor_below(a, b, bound) <= bound,
    decreases bound,
{
    if !common_divisor(bound, a, b) {
        if bound == 1 {
            assert(a % 1 == 0 && b % 1 == 0);
        } else {
            lemma_search_finds_divisor(a, b, bound - 1);
        }
    }
}

/// The stride of a movement, repeated as often as its distance says, is the
/// movement; and the distance is at least 1.
pub proof fn lemma_get_stride(delta: IVec2)
    requires
        delta != (IVec2 { x: 0, y: 0 }),
        delta.x > i8::MIN,
        delta.y > i8::MIN,
    ensures
        spec_get_stride(delta).1 >= 1,
        spec_get_stride(delta).0.x * spec_get_stride(delta).1 == delta.x,
        spec_get_stride(delta).0.y * spec_get_stride(delta).1 == delta.y,
        spec_get_stride(delta).1 == spec_gcd(spec_abs(delta.x as int), spec_abs(delta.y as int)),
        spec_abs(spec_get_stride(delta).0.x as int) <= spec_abs(delta.x as int),
        spec_abs(spec_get_stride(delta).0.y as int) <= spec_abs(delta.y as int),
{
    let ax = spec_abs(delta.x as int);
    let ay = spec_abs(delta.y as int);
    let bound = if ax > ay { ax } else { ay };
    lemma_search_finds_divisor(ax, ay, bound);
    let g = spec_gcd(ax, ay);
    lemma_exact_division(delta.x as int, g);
    lemma_exact_division(delta.y as int, g);
    let sx = delta.x as int / g;
    let sy = delta.y as int / g;
    assert(spec_abs(sx) <= ax) by (nonlinear_arith)
        requires
            spec_abs(sx) * g == ax,
            g >= 1,
            spec_abs(sx) >= 0,
    ;
    assert(spec_abs(sy) <= ay) by (nonlinear_arith)
        requires
            spec_abs(sy) * g == ay,
            g >= 1,
            spec_abs(sy) >= 0,
    ;
}

/// A movement of `n` times a stride whose coordinates are 0, 1 or -1 has
/// that stride, and the distance `n`.
pub proof fn lemma_stride_of_straight(unit: IVec2, n: int)
    requires
        1 <= n <= 127,
        -1 <= unit.x <= 1,
        -1 <= unit.y <= 1,
        unit != (IVec2 { x: 0, y: 0 }),
    ensures
        spec_get_stride(IVec2::at(unit.x * n, unit.y * n)) == (unit, n as u8),
{
    let delta = IVec2::at(unit.x * n, unit.y * n);
    assert(unit.x * n == (if unit.x == 0 { 0 } else if unit.x == 1 { n } else { -n }))
        by (nonlinear_arith)
        requires
            -1 <= unit.x <= 1,
    ;
    assert(unit.y * n == (if unit.y == 0 { 0 } else if unit.y == 1 { n } else { -n }))
        by (nonlinear_arith)
        requires
            -1 <= unit.y <= 1,
    ;
    let ax = spec_abs(delta.x as int);
    let ay = spec_abs(delta.y as int);
    assert(ax == 0 || ax == n);
    assert(ay == 0 || ay == n);
    vstd::arithmetic::div_mod::lemma_mod_self_0(n);
    vstd::arithmetic::div_mod::lemma_div_by_self(n);
    assert(0int % n == 0) by {
        lemma_small_mod(0, n as nat);
    }
    assert(0int / n == 0) by {
        vstd::arithmetic::div_mod::lemma_div_of0(n);
    }
    assert(common_divisor(n, ax, ay));
    assert(spec_gcd(ax, ay) == n);
    lemma_exact_division(delta.x as int, n);
    lemma_exact_division(delta.y as int, n);
    if delta.x < 0 {
        assert((delta.x as int / n) * n == -n);
        assert(delta.x as int / n == -1) by (nonlinear_arith)
            requires
                (delta.x as int / n) * n == -n,
                n >= 1,
        ;
    }
    if delta.y < 0 {
        assert((delta.y as int / n) * n == -n);
        assert(delta.y as int / n == -1) by (nonlinear_arith)
            requires
                (delta.y as int / n) * n == -n,
                n >= 1,
        ;
    }
}

/// A movement of `n` times a vector with a coordinate of 1 or -1 has that
/// vector as its stride, and the distance `n`.
pub proof fn lemma_stride_of_multiple(unit: IVec2, n: int)
    requires
        1 <= n,
        unit.x == 1 || unit.x == -1 || unit.y == 1 || unit.y == -1,
        -127 <= unit.x * n <= 127,
        -127 <= unit.y * n <= 127,
    ensures
        spec_get_stride(IVec2::at(unit.x * n, unit.y * n)) == (unit, n as u8),
{
    let ux = unit.x as int;
    let uy = unit.y as int;
    let delta = IVec2::at(ux * n, uy * n);
    let ax = spec_abs(delta.x as int);
    let ay = spec_abs(delta.y as int);
    assert(ax == spec_abs(ux) * n && ay == spec_abs(uy) * n) by (nonlinear_arith)
        requires
            ax == spec_abs(ux * n),
            ay == spec_abs(uy * n),
            n >= 1,
    ;
    assert(n <= 127) by (nonlinear_arith)
        requires
            ux == 1 || ux == -1 || uy == 1 || uy == -1,
            -127 <= ux * n <= 127,
            -127 <= uy * n <= 127,
    ;
    lemma_mod_multiples_basic(spec_abs(ux), n);
    lemma_mod_multiples_basic(spec_abs(uy), n);
    assert(common_divisor(n, ax, ay));
    assert(ax == n || ay == n) by (nonlinear_arith)
        requires
            ax == spec_abs(ux) * n,
            ay == spec_abs(uy) * n,
            spec_abs(ux) == 1 || spec_abs(uy) == 1,
    ;
    assert forall|d: int| common_divisor(d, ax, ay) implies d <= n by {
        lemma_divisor_is_smaller(n, d);
    }
    lemma_greatest_is_found(ax, ay, n, if ax > ay { ax } else { ay });
    assert(spec_gcd(ax, ay) == n);
    lemma_div_multiples_vanish(ux, n);
    lemma_div_multiples_vanish(uy, n);
    assert(n * ux == ux * n && n * uy == uy * n) by (nonlinear_arith);
}

/// Calls `gcd` of the crate `gcd` on two bytes. The crate returns their
/// greatest common divisor: 0 for two zeros, and otherwise a positive number
/// that divides both and that no common divisor exceeds.
#[verifier::external_body]
fn greatest_common_divisor(a: u8, b: u8) -> (g: u8)
    ensures
        a == 0 && b == 0 ==> g == 0,
        a != 0 || b != 0 ==> common_divisor(g as int, a as int, b as int),
        a != 0 || b != 0 ==> forall|d: int| common_divisor(d, a as int, b as int) ==> d <= g,
{
    a.gcd(b)
}

/// A common divisor that none exceeds is what the search from any bound not
/// below it finds.
proof fn lemma_greatest_is_found(a: int, b: int, g: int, bound: int)
    requires
        common_divisor(g, a, b),
        forall|d: int| common_divisor(d, a, b) ==> d <= g,
        bound >= g,
    ensures
        greatest_common_divisor_below(a, b, bound) == g,
    decreases bound,
{
    if bound > g {
        lemma_greatest_is_found(a, b, g, bound - 1);
    }
}

/// A positive number is at least as large as each of its divisors.
proof fn lemma_divisor_is_smaller(a: int, g: int)
    requires
        a > 0,
        g > 0,
        a % g == 0,
    ensures
        g <= a,
{
    if a < g {
        lemma_small_mod(a as nat, g as nat);
    }
}

/// Dividing a multiple of `g` by `g` leaves no remainder, whatever its sign.
proof fn lemma_exact_division(v: int, g: int)
    requires
        g > 0,
        spec_abs(v) % g == 0,
    ensures
        (v / g) * g == v,
        crate::coordinate::div_towards_zero(v, g) == v / g,
        spec_abs(v / g) * g == spec_abs(v),
{
    let a = spec_abs(v);
    let q = a / g;
    lemma_fundamental_div_mod(a, g);
    assert(a == g * q);
    assert(q * g == a) by (nonlinear_arith)
        requires
            a == g * q,
    ;
    assert(q >= 0) by (nonlinear_arith)
        requires
            a == g * q,
            a >= 0,
            g > 0,
    ;
    if v < 0 {
        assert(g * (-q) == v && (-q) * g == v) by (nonlinear_arith)
            requires
                -v == g * q,
        ;
        lemma_div_multiples_vanish(-q, g);
        assert(v / g == -q);
        assert(spec_abs(v / g) == q);
    } else {
        assert(v / g == q);
        assert(spec_abs(v / g) == q);
    }
}

/// The number of times `stride` happens in `delta`, or an error if `delta`
/// is not a multiple of `stride`.
///
/// In other words, `stride * stride_length(stride, delta) == delta`.
pub fn stride_length(stride: IVec2, delta: IVec2) -> (r: Result<i8, StrideLengthError>)
    requires
        stride.x != 0,
        stride.y != 0,
        stride.x > i8::MIN,
        stride.y > i8::MIN,
        delta.x > i8::MIN,
        delta.y > i8::MIN,
    ensures
        match r {
            Ok(n) => spans(stride, n as int, delta),
            Err(e) => e == (StrideLengthError { stride, delta }) && forall|n: int|
                !#[trigger] spans(stride, n, delta),
        },
{
    let (sx, sy) = (stride.x(), stride.y());
    let (dx, dy) = (delta.x(), delta.y());
    let qx: i8 = whole_quotient(dx, sx);
    let qy: i8 = whole_quotient(dy, sy);
    let divides_evenly: bool = (qx as i16 * sx as i16 == dx as i16) && (qy as i16 * sy as i16
        == dy as i16) && (qx == qy);
    if !divides_evenly {
        proof {
            assert forall|n: int| !#[trigger] spans(stride, n, delta) by {
                if spans(stride, n, delta) {
                    lemma_quotient_of_multiple(n, sx as int);
                    lemma_quotient_of_multiple(n, sy as int);
                }
            }
        }
        return Err(StrideLengthError { stride, delta });
    }
    Ok(qx)
}

/// The quotient of `a` by `b`, rounded towards zero.
fn whole_quotient(a: i8, b: i8) -> (q: i8)
    requires
        b != 0,
        a > i8::MIN,
        b > i8::MIN,
    ensures
        q == crate::coordinate::div_towards_zero(a as int, b as int),
        -127 <= q * b <= 127,
{
    let d = IVec2::new_unchecked(a, a) / b;
    proof {
        let ua = spec_abs(a as int);
        let ub = spec_abs(b as int);
        lemma_fundamental_div_mod(ua, ub);
        assert(0 <= (ua / ub) * ub <= ua) by (nonlinear_arith)
            requires
                ua == ub * (ua / ub) + ua % ub,
                0 <= ua % ub,
                ub > 0,
                ua >= 0,
        ;
        let q = ua / ub;
        assert((-q) * ub == -(q * ub) && q * (-ub) == -(q * ub) && (-q) * (-ub) == q * ub)
            by (nonlinear_arith);
    }
    d.x()
}

/// A multiple of `b`, divided by `b` and rounded towards zero, gives back
/// the factor.
proof fn lemma_quotient_of_multiple(n: int, b: int)
    requires
        b != 0,
    ensures
        crate::coordinate::div_towards_zero(n * b, b) == n,
{
    let a = n * b;
    if b > 0 {
        if a >= 0 {
            lemma_div_multiples_vanish(n, b);
            assert(b * n == a) by (nonlinear_arith)
                requires
                    a == n * b,
            ;
        } else {
            lemma_div_multiples_vanish(-n, b);
            assert(b * (-n) == -a) by (nonlinear_arith)
                requires
                    a == n * b,
            ;
        }
    } else {
        if a >= 0 {
            lemma_div_multiples_vanish(-n, -b);
            assert((-b) * (-n) == a) by (nonlinear_arith)
                requires
                    a == n * b,
            ;
        } else {
            lemma_div_multiples_vanish(n, -b);
            assert((-b) * n == -a) by (nonlinear_arith)
                requires
                    a == n * b,
            ;
        }
    }
}

/// Gets the stride of a movement, along with the number of strides that fit
/// in `delta`.
///
/// In other words, it finds the smallest vector that can divide `delta`.
pub fn get_stride(delta: IVec2) -> (r: (IVec2, u8))
    requires
        delta != (IVec2 { x: 0, y: 0 }),
        delta.x > i8::MIN,
        delta.y > i8::MIN,
    ensures
        r == spec_get_stride(delta),
        r.1 >= 1,
        r.0.x * r.1 == delta.x,
        r.0.y * r.1 == delta.y,
        spec_abs(r.0.x as int) * r.1 == spec_abs(delta.x as int),
        spec_abs(r.0.y as int) * r.1 == spec_abs(delta.y as int),
{
    let ax: u8 = if delta.x() < 0 { (-delta.x()) as u8 } else { delta.x() as u8 };
    let ay: u8 = if delta.y() < 0 { (-delta.y()) as u8 } else { delta.y() as u8 };
    let g: u8 = greatest_common_divisor(ax, ay);
    proof {
        if ax > 0 {
            lemma_divisor_is_smaller(ax as int, g as int);
        }
        if ay > 0 {
            lemma_divisor_is_smaller(ay as int, g as int);
        }
        lemma_greatest_is_found(
            ax as int,
            ay as int,
            g as int,
            if ax > ay { ax as int } else { ay as int },
        );
        lemma_exact_division(delta.x as int, g as int);
        lemma_exact_division(delta.y as int, g as int);
    }
    (delta / (g as i8), g)
}

/// Checks whether there's a blocker of a specific color at that specific
/// coordinate.
///
/// This is used mostly to check if the tile the piece is moving towards has a
/// piece of the same color, which would block it, while a piece of the other
/// color could be captured.
pub fn check_color_blocker(position: Vec2, board: &Board, color: Color) -> (r: Result<
    (),
    BlockerError,
>)
    requires
        position.wf(),
    ensures
        r == spec_check_color_blocker(position, board@, color),
{
    if let Some(piece) = board.get(position, color) {
        return Err(BlockerError { position, piece, color });
    }
    Ok(())
}

/// Checks if there is a blocker of either color in that specific coordinate.
pub fn check_any_blocker(position: Vec2, board: &Board) -> (r: Result<(), BlockerError>)
    requires
        position.wf(),
    ensures
        r == spec_check_any_blocker(position, board@),
{
    if let Some((piece, color)) = board.get_either(position) {
        return Err(BlockerError { position, piece, color });
    }
    Ok(())
}

/// Checks if there are any blockers at any of the strides given by the
/// distance.
///
/// Doesn't check for blockers at the final tile (i.e., `origin + distance *
/// stride`).
pub fn check_blockers(origin: Vec2, stride: IVec2, distance: u8, board: &Board) -> (r: Result<
    (),
    BlockerError,
>)
    requires
        origin.wf(),
        Vec2::spec_is_valid(origin.x + stride.x * distance, origin.y + stride.y * distance),
    ensures
        r == spec_check_blockers(origin, stride, distance as int, board@),
{
    let mut i: u8 = 1;
    while i < distance
        invariant
            1 <= i,
            origin.wf(),
            Vec2::spec_is_valid(origin.x + stride.x * distance, origin.y + stride.y * distance),
            spec_check_blockers(origin, stride, distance as int, board@) == first_blocker(
                origin,
                stride,
                i as int,
                distance as int,
                board@,
            ),
        decreases distance - i,
    {
        proof {
            lemma_steps_stay_on_board(origin, stride, distance as int, i as int);
            lemma_stride_is_small(origin, stride, distance as int);
            assert(-10 <= stride.x * i <= 10 && -10 <= stride.y * i <= 10);
        }
        let times: i8 = #[verifier::truncate] (i as i8);
        proof {
            if stride == (IVec2 { x: 0, y: 0 }) {
                assert(stride.x * times == 0 && stride.y * times == 0 && stride.x * i == 0
                    && stride.y * i == 0) by (nonlinear_arith)
                    requires
                        stride.x == 0,
                        stride.y == 0,
                ;
            } else {
                assert(times == i);
            }
        }
        let position: Vec2 = origin + stride * times;
        assert(position == step(origin, stride, i as int));
        check_any_blocker(position, board)?;
        i += 1;
    }
    Ok(())
}

/// A stride that leads from a tile to another in at least two steps is
/// short, and so is their number.
proof fn lemma_stride_is_small(origin: Vec2, stride: IVec2, distance: int)
    requires
        origin.wf(),
        Vec2::spec_is_valid(origin.x + stride.x * distance, origin.y + stride.y * distance),
        distance >= 2,
    ensures
        stride == (IVec2 { x: 0, y: 0 }) || distance <= 10,
        -10 <= stride.x <= 10,
        -10 <= stride.y <= 10,
{
    let sx = stride.x as int;
    let sy = stride.y as int;
    assert(sx >= 1 ==> sx * distance >= distance && sx * distance >= sx) by (nonlinear_arith)
        requires
            distance >= 2,
    ;
    assert(sx <= -1 ==> sx * distance <= -distance && sx * distance <= sx) by (nonlinear_arith)
        requires
            distance >= 2,
    ;
    assert(sy >= 1 ==> sy * distance >= distance && sy * distance >= sy) by (nonlinear_arith)
        requires
            distance >= 2,
    ;
    assert(sy <= -1 ==> sy * distance <= -distance && sy * distance <= sy) by (nonlinear_arith)
        requires
            distance >= 2,
    ;
    assert(sx == 0 ==> sx * distance == 0) by (nonlinear_arith);
    assert(sy == 0 ==> sy * distance == 0) by (nonlinear_arith);
}

} // verus!
