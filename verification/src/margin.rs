use crate::errors::ErrorCode;
use crate::state::Direction;
use vstd::prelude::*;

verus! {

/// Ten to the power `n`: the scale of a market with `n` decimals.
pub open spec fn pow10(n: nat) -> int
    decreases n,
{
    if n == 0 {
        1
    } else {
        10 * pow10((n - 1) as nat)
    }
}

/// The quotient rounded towards minus infinity, for any divisor but zero.
pub open spec fn floor_div(a: int, b: int) -> int
    recommends
        b != 0,
{
    if b > 0 {
        a / b
    } else {
        (-a) / (-b)
    }
}

/// A value narrowed to sixty-four bits: itself where it fits, an overflow where it does not.
pub open spec fn narrow(v: int) -> Result<i64, ErrorCode> {
    if i64::MIN <= v <= i64::MAX {
        Ok(v as i64)
    } else {
        Err(ErrorCode::MathOverflow)
    }
}

/// Whether the scale of a market with this many decimals fits the wide
/// intermediate range in which products are formed.
pub open spec fn scale_fits(decimals: nat) -> bool {
    pow10(decimals) <= i128::MAX
}

/// Whether a value fits sixty-four bits.
pub open spec fn fits(v: int) -> bool {
    i64::MIN <= v <= i64::MAX
}

/// `+1` for a long, `-1` for a short.
pub open spec fn sign_of(direction: Direction) -> int {
    match direction {
        Direction::Long => 1,
        Direction::Short => -1,
    }
}

/// The value of `size` units at `price`, in the market's fixed-point unit:
/// `floor(price * size / 10^decimals)`.
pub open spec fn notional(price: int, size: int, decimals: nat) -> int {
    (price * size) / pow10(decimals)
}

/// What a position of the given notional and size has gained at `current_price`:
/// `(floor(current_price * size / 10^decimals) - notional) * sign`.
pub open spec fn unrealized_pnl(
    notional: int,
    current_price: int,
    size: int,
    decimals: nat,
    direction: Direction,
) -> int {
    (self::notional(current_price, size, decimals) - notional) * sign_of(direction)
}

/// The notional as the engine reports it: an overflow where the scale or the
/// result is out of range.
pub open spec fn checked_notional(price: int, size: int, decimals: nat) -> Result<i64, ErrorCode> {
    if scale_fits(decimals) {
        narrow(notional(price, size, decimals))
    } else {
        Err(ErrorCode::MathOverflow)
    }
}

/// The unrealized profit as the engine reports it.
pub open spec fn checked_unrealized_pnl(
    notional: int,
    current_price: int,
    size: int,
    decimals: nat,
    direction: Direction,
) -> Result<i64, ErrorCode> {
    if scale_fits(decimals) {
        narrow(unrealized_pnl(notional, current_price, size, decimals, direction))
    } else {
        Err(ErrorCode::MathOverflow)
    }
}

/// The margin that a notional locks at a leverage: `floor(notional / leverage)`.
/// A leverage of zero is an arithmetic error.
pub open spec fn checked_margin(notional: int, leverage: int) -> Result<i64, ErrorCode> {
    if leverage > 0 {
        narrow(notional / leverage)
    } else {
        Err(ErrorCode::MathOverflow)
    }
}

/// A total divided by a size, rounded down; a size of zero is an arithmetic error.
pub open spec fn checked_quotient(total: int, size: int) -> Result<i64, ErrorCode> {
    if size != 0 {
        narrow(floor_div(total, size))
    } else {
        Err(ErrorCode::MathOverflow)
    }
}

pub proof fn lemma_pow10_positive(n: nat)
    ensures
        pow10(n) >= 1,
    decreases n,
{
    if n > 0 {
        lemma_pow10_positive((n - 1) as nat);
    }
}

pub proof fn lemma_pow10_monotone(m: nat, n: nat)
    requires
        m <= n,
    ensures
        pow10(m) <= pow10(n),
    decreases n,
{
    if m < n {
        lemma_pow10_monotone(m, (n - 1) as nat);
        lemma_pow10_positive((n - 1) as nat);
    }
}

/// A notional is a magnitude: for a price and a size that are not negative it
/// is not negative either, whatever the scale.
pub proof fn lemma_notional_nonnegative(price: int, size: int, decimals: nat)
    requires
        price >= 0,
        size >= 0,
    ensures
        notional(price, size, decimals) >= 0,
{
    lemma_pow10_positive(decimals);
    let d = pow10(decimals);
    assert(price * size >= 0) by (nonlinear_arith)
        requires
            price >= 0,
            size >= 0,
    ;
    let p = price * size;
    assert(p / d >= 0) by (nonlinear_arith)
        requires
            p >= 0,
            d >= 1,
    ;
}

/// `10^decimals`, where it fits.
fn scale(decimals: u8) -> (s: Option<i128>)
    ensures
        match s {
            Some(v) => scale_fits(decimals as nat) && v == pow10(decimals as nat) && v >= 1,
            None => !scale_fits(decimals as nat),
        },
{
    let mut acc: i128 = 1;
    let mut i: u8 = 0;
    while i < decimals
        invariant
            i <= decimals,
            acc == pow10(i as nat),
            acc >= 1,
        decreases decimals - i,
    {
        match acc.checked_mul(10) {
            Some(next) => {
                acc = next;
            },
            None => {
                proof {
                    lemma_pow10_monotone((i + 1) as nat, decimals as nat);
                }
                return None;
            },
        }
        i += 1;
    }
    Some(acc)
}

/// Division rounded towards minus infinity.
fn div_floor(a: i128, b: i128) -> (q: i128)
    requires
        b != 0,
        i128::MIN < a,
        i128::MIN < b,
    ensures
        q == floor_div(a as int, b as int),
{
    let n: i128 = if b > 0 { a } else { -a };
    let d: i128 = if b > 0 { b } else { -b };
    if n >= 0 {
        n / d
    } else {
        let m: i128 = -(n + 1);
        let t: i128 = m / d;
        assert(n as int / d as int == -(m as int / d as int) - 1) by (nonlinear_arith)
            requires
                n < 0,
                d > 0,
                m == -(n + 1),
        ;
        -t - 1
    }
}

/// A wide value narrowed to sixty-four bits.
fn narrow_wide(v: i128) -> (r: Result<i64, ErrorCode>)
    ensures
        r == narrow(v as int),
{
    if v < i64::MIN as i128 || v > i64::MAX as i128 {
        Err(ErrorCode::MathOverflow)
    } else {
        Ok(v as i64)
    }
}

/// The product of two sixty-four-bit values, which the wide range always holds.
fn wide_product(x: i64, y: i64) -> (p: i128)
    ensures
        p == x * y,
        -0x4000_0000_0000_0000_0000_0000_0000_0000 <= p <= 0x4000_0000_0000_0000_0000_0000_0000_0000,
{
    assert(-0x4000_0000_0000_0000_0000_0000_0000_0000 <= x * y
        <= 0x4000_0000_0000_0000_0000_0000_0000_0000) by (nonlinear_arith)
        requires
            -0x8000_0000_0000_0000 <= x <= 0x8000_0000_0000_0000,
            -0x8000_0000_0000_0000 <= y <= 0x8000_0000_0000_0000,
    ;
    (x as i128) * (y as i128)
}

/// The sum of two values, or an overflow.
pub fn sum_of(a: i64, b: i64) -> (r: Result<i64, ErrorCode>)
    ensures
        r == narrow(a + b),
{
    match a.checked_add(b) {
        Some(v) => Ok(v),
        None => Err(ErrorCode::MathOverflow),
    }
}

/// The difference of two values, or an overflow.
pub fn difference_of(a: i64, b: i64) -> (r: Result<i64, ErrorCode>)
    ensures
        r == narrow(a - b),
{
    match a.checked_sub(b) {
        Some(v) => Ok(v),
        None => Err(ErrorCode::MathOverflow),
    }
}

/// What closing a slice realizes: its value at the closing price less its
/// value at entry, with the sign of the direction.
///
/// Fails with `MathOverflow` where the result does not fit.
pub fn calculate_realized_pnl(closing_equity: i64, closing_notional: i64, direction: Direction) -> (r:
    Result<i64, ErrorCode>)
    ensures
        r == narrow((closing_equity - closing_notional) * sign_of(direction)),
{
    let gain: i128 = closing_equity as i128 - closing_notional as i128;
    let signed: i128 = match direction {
        Direction::Long => gain,
        Direction::Short => -gain,
    };
    narrow_wide(signed)
}

/// The sign of a direction as a factor.
pub fn dir_sign(direction: Direction) -> (sign: i64)
    ensures
        sign == sign_of(direction),
{
    match direction {
        Direction::Long => 1,
        Direction::Short => -1,
    }
}

/// The value of `size` units at `price`, scaled down by `10^decimals` and rounded down.
///
/// The product is formed in the wide range. The call fails with `MathOverflow`
/// where the scale does not fit that range or the result does not fit sixty-four bits.
pub fn calculate_notional(price: i64, size: i64, decimals: u8) -> (r: Result<i64, ErrorCode>)
    ensures
        r == checked_notional(price as int, size as int, decimals as nat),
        price >= 0 && size >= 0 ==> (r matches Ok(n) ==> n >= 0),
{
    let s = match scale(decimals) {
        Some(s) => s,
        None => {
            return Err(ErrorCode::MathOverflow);
        },
    };
    let product = wide_product(price, size);
    let q = div_floor(product, s);
    proof {
        if price >= 0 && size >= 0 {
            lemma_notional_nonnegative(price as int, size as int, decimals as nat);
        }
    }
    narrow_wide(q)
}

/// The profit that a position of the given notional and size shows at `current_price`.
///
/// Fails with `MathOverflow` where the scale does not fit the wide range or
/// the result does not fit sixty-four bits.
pub fn calculate_unrealized_pnl(
    notional: i64,
    current_price: i64,
    size: i64,
    decimals: u8,
    direction: Direction,
) -> (r: Result<i64, ErrorCode>)
    ensures
        r == checked_unrealized_pnl(
            notional as int,
            current_price as int,
            size as int,
            decimals as nat,
            direction,
        ),
{
    let s = match scale(decimals) {
        Some(s) => s,
        None => {
            return Err(ErrorCode::MathOverflow);
        },
    };
    let product = wide_product(current_price, size);
    let value = div_floor(product, s);
    assert(-0x4000_0000_0000_0000_0000_0000_0000_0000 <= value
        <= 0x4000_0000_0000_0000_0000_0000_0000_0000) by (nonlinear_arith)
        requires
            -0x4000_0000_0000_0000_0000_0000_0000_0000 <= product
                <= 0x4000_0000_0000_0000_0000_0000_0000_0000,
            s >= 1,
            value == product as int / s as int,
    ;
    let gain: i128 = value - notional as i128;
    let signed: i128 = match direction {
        Direction::Long => gain,
        Direction::Short => -gain,
    };
    narrow_wide(signed)
}

/// The margin that a notional locks at a leverage, rounded down.
///
/// Fails with `MathOverflow` where the leverage is zero.
pub fn required_margin(notional: i64, leverage: u8) -> (r: Result<i64, ErrorCode>)
    ensures
        r == checked_margin(notional as int, leverage as int),
        leverage > 0 ==> r is Ok,
{
    if leverage == 0 {
        return Err(ErrorCode::MathOverflow);
    }
    let q = div_floor(notional as i128, leverage as i128);
    assert(i64::MIN <= q <= i64::MAX) by (nonlinear_arith)
        requires
            i64::MIN <= notional <= i64::MAX,
            leverage >= 1,
            q == notional as int / leverage as int,
    ;
    narrow_wide(q)
}

/// The entry price of a position after a fill: the notional at entry, old and
/// added together, spread over the new entry size and rounded down.
///
/// Fails with `MathOverflow` where the size is zero or the result does not fit.
pub fn weighted_entry_price(
    prev_entry_notional: i64,
    added_notional: i64,
    new_entry_size: i64,
) -> (r: Result<i64, ErrorCode>)
    ensures
        r == checked_quotient(prev_entry_notional + added_notional, new_entry_size as int),
{
    if new_entry_size == 0 {
        return Err(ErrorCode::MathOverflow);
    }
    let total: i128 = prev_entry_notional as i128 + added_notional as i128;
    let q = div_floor(total, new_entry_size as i128);
    narrow_wide(q)
}

/// The average price of what has been closed: the value closed so far spread
/// over the size closed so far, rounded down.
///
/// Fails with `MathOverflow` where the size is zero or the result does not fit.
pub fn calculate_price_from_notional_and_size(notional: i64, size: i64) -> (r: Result<
    i64,
    ErrorCode,
>)
    ensures
        r == checked_quotient(notional as int, size as int),
{
    if size == 0 {
        return Err(ErrorCode::MathOverflow);
    }
    let q = div_floor(notional as i128, size as i128);
    narrow_wide(q)
}

} // verus!
