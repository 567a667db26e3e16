//! Element-wise kernels over nullable arrays of timestamps and calendar
//! intervals.

use vstd::prelude::*;
use vstd::string::StringExecFns;

verus! {

/// Resolution of a timestamp or a duration.
#[derive(Clone, Copy, Debug, PartialEq, Eq, Structural)]
pub enum TimeUnit {
    Second,
    Millisecond,
    Microsecond,
    Nanosecond,
}

impl TimeUnit {
    /// Number of decimal digits below one second that the unit resolves.
    pub open spec fn digits(self) -> int {
        match self {
            TimeUnit::Second => 0,
            TimeUnit::Millisecond => 3,
            TimeUnit::Microsecond => 6,
            TimeUnit::Nanosecond => 9,
        }
    }

    pub fn exponent(self) -> (r: u8)
        ensures
            r == self.digits(),
    {
        match self {
            TimeUnit::Second => 0,
            TimeUnit::Millisecond => 3,
            TimeUnit::Microsecond => 6,
            TimeUnit::Nanosecond => 9,
        }
    }
}

/// Logical type carried by an array.
#[derive(Debug)]
pub enum ArrayType {
    Int32,
    Int64,
    Date32,
    Date64,
    Time32(TimeUnit),
    Time64(TimeUnit),
    Timestamp(TimeUnit, Option<String>),
    Duration(TimeUnit),
    Interval,
}

impl ArrayType {
    /// An independent copy of the type.
    pub fn duplicate(&self) -> (r: ArrayType)
        ensures
            r == *self,
    {
        match self {
            ArrayType::Int32 => ArrayType::Int32,
            ArrayType::Int64 => ArrayType::Int64,
            ArrayType::Date32 => ArrayType::Date32,
            ArrayType::Date64 => ArrayType::Date64,
            ArrayType::Time32(u) => ArrayType::Time32(*u),
            ArrayType::Time64(u) => ArrayType::Time64(*u),
            ArrayType::Timestamp(u, tz) => {
                let zone = match tz {
                    Some(name) => Some(name.clone()),
                    None => None,
                };
                ArrayType::Timestamp(*u, zone)
            },
            ArrayType::Duration(u) => ArrayType::Duration(*u),
            ArrayType::Interval => ArrayType::Interval,
        }
    }

    /// The unit in which a 64-bit time array counts: the unit of a
    /// timestamp or of a time of day, and milliseconds for a date.
    pub open spec fn counting_unit(self) -> Option<TimeUnit> {
        match self {
            ArrayType::Timestamp(u, _) => Some(u),
            ArrayType::Time64(u) => Some(u),
            ArrayType::Date64 => Some(TimeUnit::Millisecond),
            _ => None,
        }
    }

    /// The unit of a duration.
    pub open spec fn duration_unit(self) -> Option<TimeUnit> {
        match self {
            ArrayType::Duration(u) => Some(u),
            _ => None,
        }
    }

    /// The unit of a timestamp that carries no time zone.
    pub open spec fn naive_unit(self) -> Option<TimeUnit> {
        match self {
            ArrayType::Timestamp(u, None) => Some(u),
            _ => None,
        }
    }
}

/// A calendar interval: months, days and nanoseconds, each signed.
#[derive(Clone, Copy, Debug, PartialEq, Eq, Structural)]
pub struct MonthsDaysNs {
    pub months: i32,
    pub days: i32,
    pub ns: i64,
}

impl MonthsDaysNs {
    /// The interval with every component multiplied by `factor`, each product
    /// reduced to the width of its component.
    pub open spec fn times(self, factor: i32) -> MonthsDaysNs {
        MonthsDaysNs {
            months: self.months.wrapping_mul(factor),
            days: self.days.wrapping_mul(factor),
            ns: self.ns.wrapping_mul(factor as i64),
        }
    }

    pub fn scale(self, factor: i32) -> (r: MonthsDaysNs)
        ensures
            r == self.times(factor),
    {
        MonthsDaysNs {
            months: self.months.wrapping_mul(factor),
            days: self.days.wrapping_mul(factor),
            ns: self.ns.wrapping_mul(factor as i64),
        }
    }
}

/// A typed array whose slots are either a value or null.
#[derive(Debug)]
pub struct PrimitiveArray<T> {
    pub data_type: ArrayType,
    pub values: Vec<Option<T>>,
}

/// A typed value that may be null.
#[derive(Debug)]
pub struct PrimitiveScalar<T> {
    pub data_type: ArrayType,
    pub value: Option<T>,
}

impl<T: Copy> PrimitiveArray<T> {
    pub open spec fn slots(self) -> Seq<Option<T>> {
        self.values@
    }

    pub fn new(data_type: ArrayType, values: Vec<Option<T>>) -> (r: Self)
        ensures
            r.data_type == data_type,
            r.values == values,
    {
        PrimitiveArray { data_type, values }
    }

    pub fn len(&self) -> (n: usize)
        ensures
            n == self.slots().len(),
    {
        self.values.len()
    }

    pub fn get(&self, i: usize) -> (v: Option<T>)
        requires
            i < self.slots().len(),
        ensures
            v == self.slots()[i as int],
    {
        self.values[i]
    }

    /// An array of `len` nulls.
    pub fn new_null(data_type: ArrayType, len: usize) -> (r: Self)
        ensures
            r.data_type == data_type,
            r.slots() == Seq::new(len as nat, |i: int| None::<T>),
    {
        let mut values: Vec<Option<T>> = Vec::new();
        let mut i: usize = 0;
        while i < len
            invariant
                i <= len,
                values@ == Seq::new(i as nat, |k: int| None::<T>),
            decreases len - i,
        {
            values.push(None);
            i += 1;
            assert(values@ =~= Seq::new(i as nat, |k: int| None::<T>));
        }
        PrimitiveArray { data_type, values }
    }
}

/// Why a kernel refused its arguments.
#[derive(Debug)]
pub enum KernelError {
    InvalidArgumentError(String),
}

impl KernelError {
    /// The text of the refusal.
    pub open spec fn message(self) -> Seq<char> {
        match self {
            KernelError::InvalidArgumentError(m) => m@,
        }
    }

    pub fn to_text(&self) -> (s: String)
        ensures
            s@ == self.message(),
    {
        match self {
            KernelError::InvalidArgumentError(m) => m.clone(),
        }
    }
}

/// Two to the power 53: below it every whole number is a double.
pub open spec fn two_53() -> int {
    9_007_199_254_740_992
}

/// The distance between neighbouring doubles at the magnitude of `x`: the
/// least power of two, from `p` on and after at most `fuel` doublings, of
/// which `x` is less than two to the power 53 multiples.
pub open spec fn spacing(x: int, p: int, fuel: nat) -> int
    decreases fuel,
{
    if fuel == 0 || x < p * two_53() {
        p
    } else {
        spacing(x, 2 * p, (fuel - 1) as nat)
    }
}

/// The double nearest to the whole number `x`, which is not negative: `x`
/// rounded to a multiple of the spacing at its magnitude, a tie going to the
/// even multiple.
pub open spec fn nearest_double(x: int) -> int {
    let p = spacing(x, 1, 70);
    let q = x / p;
    let rest = x % p;
    if p > 1 && (2 * rest > p || (2 * rest == p && q % 2 == 1)) {
        (q + 1) * p
    } else {
        q * p
    }
}

/// Ten to the power `digits`, for the steps between time units.
pub open spec fn power_of_ten(digits: int) -> int {
    if digits == 3 {
        1_000
    } else if digits == 6 {
        1_000_000
    } else if digits == 9 {
        1_000_000_000
    } else {
        1
    }
}

/// The double nearest to ten to the power minus `digits` is `mantissa`
/// divided by `divisor`, a power of two.
pub open spec fn mantissa(digits: int) -> int {
    if digits == 3 {
        4_611_686_018_427_388
    } else if digits == 6 {
        4_722_366_482_869_645
    } else {
        4_835_703_278_458_517
    }
}

/// See `mantissa`.
pub open spec fn divisor(digits: int) -> int {
    if digits == 3 {
        4_611_686_018_427_387_904
    } else if digits == 6 {
        4_722_366_482_869_645_213_696
    } else {
        4_835_703_278_458_516_698_824_704
    }
}

/// The whole part of the double product of `x`, which is not negative, and
/// the scale between two units: `x` is rounded to a double, multiplied by
/// the scale as a double, the product rounded to a double and cut to a whole
/// number.
pub open spec fn scaled_magnitude(x: int, from: TimeUnit, to: TimeUnit) -> int {
    let v = nearest_double(x);
    if to.digits() >= from.digits() {
        nearest_double(v * power_of_ten(to.digits() - from.digits()))
    } else {
        nearest_double(v * mantissa(from.digits() - to.digits())) / divisor(
            from.digits() - to.digits(),
        )
    }
}

/// `x` brought into the range of `i64`.
pub open spec fn clamped(x: int) -> i64 {
    if x > i64::MAX {
        i64::MAX
    } else if x < i64::MIN {
        i64::MIN
    } else {
        x as i64
    }
}

/// A count of `from` units expressed in `to` units, computed as in
/// double-precision arithmetic: the count as a double, times the scale
/// between the units as a double, cut to a whole number toward zero and held
/// to the range of `i64`. Counts beyond two to the power 53 lose their low
/// bits on the way.
pub open spec fn rescaled(value: i64, from: TimeUnit, to: TimeUnit) -> i64 {
    if value >= 0 {
        clamped(scaled_magnitude(value as int, from, to))
    } else {
        clamped(-scaled_magnitude(-(value as int), from, to))
    }
}

fn spacing_of(x: u128) -> (p: u128)
    requires
        x < 0x40_0000_0000_0000_0000_0000_0000_0000u128,
    ensures
        p == spacing(x as int, 1, 70),
        p >= 1,
        p == 1 || p * 4_503_599_627_370_496 <= x,
{
    let mut p: u128 = 1;
    let mut fuel: u8 = 70;
    while fuel > 0 && x >= p * 9_007_199_254_740_992u128
        invariant
            x < 0x40_0000_0000_0000_0000_0000_0000_0000u128,
            p >= 1,
            p == 1 || p * 4_503_599_627_370_496 <= x,
            spacing(x as int, 1, 70) == spacing(x as int, p as int, fuel as nat),
        decreases fuel,
    {
        p = p * 2;
        fuel -= 1;
    }
    p
}

fn nearest(x: u128) -> (v: u128)
    requires
        x < 0x40_0000_0000_0000_0000_0000_0000_0000u128,
    ensures
        v == nearest_double(x as int),
        v <= 2 * x,
{
    let p: u128 = spacing_of(x);
    let q: u128 = x / p;
    let rest: u128 = x % p;
    assert(q * p <= x) by (nonlinear_arith)
        requires
            q == x / p,
            p > 0,
    ;
    assert(q * p + p == (q + 1) * p) by (nonlinear_arith);
    if p > 1 && (2 * rest > p || (2 * rest == p && q % 2 == 1)) {
        (q + 1) * p
    } else {
        q * p
    }
}

fn clamp_magnitude(t: u128, negative: bool) -> (r: i64)
    ensures
        r == clamped(
            if negative {
                -(t as int)
            } else {
                t as int
            },
        ),
{
    if negative {
        if t >= 9_223_372_036_854_775_808u128 {
            i64::MIN
        } else {
            let small: i64 = t as i64;
            -small
        }
    } else if t > 9_223_372_036_854_775_807u128 {
        i64::MAX
    } else {
        t as i64
    }
}

/// Expresses a count of `from` units in `to` units, as double-precision
/// arithmetic would.
pub fn rescale(value: i64, from: TimeUnit, to: TimeUnit) -> (r: i64)
    ensures
        r == rescaled(value, from, to),
{
    let ef: u8 = from.exponent();
    let et: u8 = to.exponent();
    let negative: bool = value < 0;
    let x: u128 = if negative {
        (-(value as i128)) as u128
    } else {
        value as u128
    };
    let v: u128 = nearest(x);
    let t: u128 = if et >= ef {
        let steps: u8 = et - ef;
        let factor: u128 = if steps == 3 {
            1_000
        } else if steps == 6 {
            1_000_000
        } else if steps == 9 {
            1_000_000_000
        } else {
            1
        };
        assert(v * factor <= 0x1_0000_0000_0000_0000u128 * 1_000_000_000) by (nonlinear_arith)
            requires
                v <= 0x1_0000_0000_0000_0000u128,
                factor <= 1_000_000_000,
        ;
        nearest(v * factor)
    } else {
        let steps: u8 = ef - et;
        let m: u128 = if steps == 3 {
            4_611_686_018_427_388
        } else if steps == 6 {
            4_722_366_482_869_645
        } else {
            4_835_703_278_458_517
        };
        let d: u128 = if steps == 3 {
            4_611_686_018_427_387_904
        } else if steps == 6 {
            4_722_366_482_869_645_213_696
        } else {
            4_835_703_278_458_516_698_824_704
        };
        assert(v * m <= 0x1_0000_0000_0000_0000u128 * 4_835_703_278_458_517) by (nonlinear_arith)
            requires
                v <= 0x1_0000_0000_0000_0000u128,
                m <= 4_835_703_278_458_517,
        ;
        nearest(v * m) / d
    };
    clamp_magnitude(t, negative)
}

/// The slot-wise difference of two timestamp columns, `rhs` first expressed
/// in the unit of `lhs`; a slot is null where either operand is. A
/// difference that leaves the range of `i64` wraps around.
pub open spec fn timestamp_differences(
    lhs: Seq<Option<i64>>,
    rhs: Seq<Option<i64>>,
    unit_a: TimeUnit,
    unit_b: TimeUnit,
) -> Seq<Option<i64>> {
    Seq::new(
        lhs.len(),
        |i: int|
            match (lhs[i], rhs[i]) {
                (Some(a), Some(b)) => Some(a.wrapping_sub(rescaled(b, unit_b, unit_a))),
                _ => None,
            },
    )
}

fn invalid(message: &str) -> (e: KernelError)
    ensures
        e.message() == message@,
{
    KernelError::InvalidArgumentError(message.to_string())
}

/// Subtracts `rhs` from `lhs` slot by slot. Both must be timestamps without
/// a time zone; the result is a duration in the unit of `lhs`.
pub fn subtract_timestamps(lhs: &PrimitiveArray<i64>, rhs: &PrimitiveArray<i64>) -> (r: Result<
    PrimitiveArray<i64>,
    KernelError,
>)
    requires
        lhs.data_type.naive_unit() is Some && rhs.data_type.naive_unit() is Some
            ==> lhs.slots().len() == rhs.slots().len(),
    ensures
        r is Ok <==> lhs.data_type.naive_unit() is Some && rhs.data_type.naive_unit() is Some,
        r matches Ok(out) ==> {
            &&& out.data_type == ArrayType::Duration(lhs.data_type.naive_unit().unwrap())
            &&& out.slots() == timestamp_differences(
                lhs.slots(),
                rhs.slots(),
                lhs.data_type.naive_unit().unwrap(),
                rhs.data_type.naive_unit().unwrap(),
            )
        },
        r matches Err(e) ==> e.message() == "Incorrect data type for the arguments"@,
{
    match (&lhs.data_type, &rhs.data_type) {
        (ArrayType::Timestamp(unit_a, None), ArrayType::Timestamp(unit_b, None)) => {
            let n: usize = lhs.len();
            let mut values: Vec<Option<i64>> = Vec::new();
            let mut i: usize = 0;
            while i < n
                invariant
                    i <= n,
                    n == lhs.slots().len(),
                    n == rhs.slots().len(),
                    values@ == timestamp_differences(
                        lhs.slots(),
                        rhs.slots(),
                        *unit_a,
                        *unit_b,
                    ).take(i as int),
                decreases n - i,
            {
                let slot: Option<i64> = match (lhs.get(i), rhs.get(i)) {
                    (Some(a), Some(b)) => Some(a.wrapping_sub(rescale(b, *unit_b, *unit_a))),
                    _ => None,
                };
                values.push(slot);
                i += 1;
                assert(values@ =~= timestamp_differences(
                    lhs.slots(),
                    rhs.slots(),
                    *unit_a,
                    *unit_b,
                ).take(i as int));
            }
            assert(values@ =~= timestamp_differences(lhs.slots(), rhs.slots(), *unit_a, *unit_b));
            Ok(PrimitiveArray { data_type: ArrayType::Duration(*unit_a), values })
        },
        _ => Err(invalid("Incorrect data type for the arguments")),
    }
}

/// Subtracts one timestamp from every slot of `lhs`. Both must be timestamps
/// without a time zone. A null `rhs` gives nulls under the type of `lhs`;
/// otherwise the result is a duration in the unit of `lhs`.
pub fn sub_timestamps_scalar(lhs: &PrimitiveArray<i64>, rhs: &PrimitiveScalar<i64>) -> (r: Result<
    PrimitiveArray<i64>,
    KernelError,
>)
    ensures
        r is Ok <==> lhs.data_type.naive_unit() is Some && rhs.data_type.naive_unit() is Some,
        r matches Ok(out) ==> match rhs.value {
            None => {
                &&& out.data_type == lhs.data_type
                &&& out.slots() == Seq::new(lhs.slots().len(), |i: int| None::<i64>)
            },
            Some(b) => {
                &&& out.data_type == ArrayType::Duration(lhs.data_type.naive_unit().unwrap())
                &&& out.slots() == timestamp_differences(
                    lhs.slots(),
                    Seq::new(lhs.slots().len(), |i: int| Some(b)),
                    lhs.data_type.naive_unit().unwrap(),
                    rhs.data_type.naive_unit().unwrap(),
                )
            },
        },
        r matches Err(e) ==> e.message()
            == "sub_timestamps_scalar requires both arguments to be timestamps without timezone"@,
{
    match (&lhs.data_type, &rhs.data_type) {
        (ArrayType::Timestamp(unit_a, None), ArrayType::Timestamp(unit_b, None)) => {
            let n: usize = lhs.len();
            match rhs.value {
                None => Ok(PrimitiveArray::new_null(lhs.data_type.duplicate(), n)),
                Some(b) => {
                    let scaled: i64 = rescale(b, *unit_b, *unit_a);
                    let ghost expected = timestamp_differences(
                        lhs.slots(),
                        Seq::new(lhs.slots().len(), |i: int| Some(b)),
                        *unit_a,
                        *unit_b,
                    );
                    let mut values: Vec<Option<i64>> = Vec::new();
                    let mut i: usize = 0;
                    while i < n
                        invariant
                            i <= n,
                            n == lhs.slots().len(),
                            scaled == rescaled(b, *unit_b, *unit_a),
                            expected == timestamp_differences(
                                lhs.slots(),
                                Seq::new(lhs.slots().len(), |i: int| Some(b)),
                                *unit_a,
                                *unit_b,
                            ),
                            values@ == expected.take(i as int),
                        decreases n - i,
                    {
                        let slot: Option<i64> = match lhs.get(i) {
                            Some(a) => Some(a.wrapping_sub(scaled)),
                            None => None,
                        };
                        values.push(slot);
                        i += 1;
                        assert(values@ =~= expected.take(i as int));
                    }
                    assert(values@ =~= expected);
                    Ok(PrimitiveArray { data_type: ArrayType::Duration(*unit_a), values })
                },
            }
        },
        _ => Err(
            invalid(
                "sub_timestamps_scalar requires both arguments to be timestamps without timezone",
            ),
        ),
    }
}

/// Every interval multiplied by one factor; null where the interval is.
pub open spec fn intervals_times(intervals: Seq<Option<MonthsDaysNs>>, factor: i32) -> Seq<
    Option<MonthsDaysNs>,
> {
    Seq::new(
        intervals.len(),
        |i: int|
            match intervals[i] {
                Some(v) => Some(v.times(factor)),
                None => None,
            },
    )
}

/// Every interval multiplied by the factor in the same slot; null where
/// either is.
pub open spec fn intervals_times_each(
    intervals: Seq<Option<MonthsDaysNs>>,
    factors: Seq<Option<i32>>,
) -> Seq<Option<MonthsDaysNs>> {
    Seq::new(
        intervals.len(),
        |i: int|
            match (intervals[i], factors[i]) {
                (Some(v), Some(f)) => Some(v.times(f)),
                _ => None,
            },
    )
}

/// What multiplying an interval column by a scalar factor gives.
pub open spec fn scalar_product(intervals: Seq<Option<MonthsDaysNs>>, factor: Option<i32>) -> Seq<
    Option<MonthsDaysNs>,
> {
    match factor {
        Some(f) => intervals_times(intervals, f),
        None => Seq::new(intervals.len(), |i: int| None::<MonthsDaysNs>),
    }
}

/// Multiplies every interval by `factor`; a null factor gives a column of
/// nulls. The result has the type of `interval`.
pub fn mul_interval_scalar(
    interval: &PrimitiveArray<MonthsDaysNs>,
    factor: &PrimitiveScalar<i32>,
) -> (r: Result<PrimitiveArray<MonthsDaysNs>, KernelError>)
    ensures
        r matches Ok(out) && out.data_type == interval.data_type && out.slots() == scalar_product(
            interval.slots(),
            factor.value,
        ),
{
    let n: usize = interval.len();
    match factor.value {
        None => Ok(PrimitiveArray::new_null(interval.data_type.duplicate(), n)),
        Some(f) => {
            let mut values: Vec<Option<MonthsDaysNs>> = Vec::new();
            let mut i: usize = 0;
            while i < n
                invariant
                    i <= n,
                    n == interval.slots().len(),
                    values@ == intervals_times(interval.slots(), f).take(i as int),
                decreases n - i,
            {
                let slot: Option<MonthsDaysNs> = match interval.get(i) {
                    Some(v) => Some(v.scale(f)),
                    None => None,
                };
                values.push(slot);
                i += 1;
                assert(values@ =~= intervals_times(interval.slots(), f).take(i as int));
            }
            assert(values@ =~= intervals_times(interval.slots(), f));
            Ok(PrimitiveArray { data_type: interval.data_type.duplicate(), values })
        },
    }
}

/// Multiplies intervals by factors. A factor column of length one acts as a
/// scalar; otherwise the columns must be equally long and are multiplied slot
/// by slot. The result has the type of `interval`.
pub fn mul_interval(interval: &PrimitiveArray<MonthsDaysNs>, factor: &PrimitiveArray<i32>) -> (r:
    Result<PrimitiveArray<MonthsDaysNs>, KernelError>)
    ensures
        r is Ok <==> factor.slots().len() == 1 || factor.slots().len() == interval.slots().len(),
        r matches Ok(out) ==> {
            &&& out.data_type == interval.data_type
            &&& out.slots() == if factor.slots().len() == 1 {
                scalar_product(interval.slots(), factor.slots()[0])
            } else {
                intervals_times_each(interval.slots(), factor.slots())
            }
        },
        r matches Err(e) ==> e.message()
            == "Interval and factor arrays must have the same length"@,
{
    if factor.len() == 1 {
        let scalar = PrimitiveScalar { data_type: factor.data_type.duplicate(), value: factor.get(0) };
        return mul_interval_scalar(interval, &scalar);
    }
    let n: usize = interval.len();
    if n != factor.len() {
        return Err(invalid("Interval and factor arrays must have the same length"));
    }
    let mut values: Vec<Option<MonthsDaysNs>> = Vec::new();
    let mut i: usize = 0;
    while i < n
        invariant
            i <= n,
            n == interval.slots().len(),
            n == factor.slots().len(),
            values@ == intervals_times_each(interval.slots(), factor.slots()).take(i as int),
        decreases n - i,
    {
        let slot: Option<MonthsDaysNs> = match (interval.get(i), factor.get(i)) {
            (Some(v), Some(f)) => Some(v.scale(f)),
            _ => None,
        };
        values.push(slot);
        i += 1;
        assert(values@ =~= intervals_times_each(interval.slots(), factor.slots()).take(i as int));
    }
    assert(values@ =~= intervals_times_each(interval.slots(), factor.slots()));
    Ok(PrimitiveArray { data_type: interval.data_type.duplicate(), values })
}

/// Every time moved by the duration in the same slot, the duration first
/// expressed in the unit of the time; forward where `forward` holds, else
/// backward. A slot is null where either operand is, and a result that
/// leaves the range of `i64` wraps around.
pub open spec fn moved_times(
    times: Seq<Option<i64>>,
    durations: Seq<Option<i64>>,
    time_unit: TimeUnit,
    duration_unit: TimeUnit,
    forward: bool,
) -> Seq<Option<i64>> {
    Seq::new(
        times.len(),
        |i: int|
            match (times[i], durations[i]) {
                (Some(t), Some(d)) => Some(
                    if forward {
                        t.wrapping_add(rescaled(d, duration_unit, time_unit))
                    } else {
                        t.wrapping_sub(rescaled(d, duration_unit, time_unit))
                    },
                ),
                _ => None,
            },
    )
}

fn counting_unit_of(data_type: &ArrayType) -> (r: Option<TimeUnit>)
    ensures
        r == data_type.counting_unit(),
{
    match data_type {
        ArrayType::Timestamp(u, _) => Some(*u),
        ArrayType::Time64(u) => Some(*u),
        ArrayType::Date64 => Some(TimeUnit::Millisecond),
        _ => None,
    }
}

fn duration_unit_of(data_type: &ArrayType) -> (r: Option<TimeUnit>)
    ensures
        r == data_type.duration_unit(),
{
    match data_type {
        ArrayType::Duration(u) => Some(*u),
        _ => None,
    }
}

fn move_times(time: &PrimitiveArray<i64>, duration: &PrimitiveArray<i64>, forward: bool) -> (r:
    PrimitiveArray<i64>)
    requires
        time.data_type.counting_unit() is Some,
        duration.data_type.duration_unit() is Some,
        time.slots().len() == duration.slots().len(),
    ensures
        r.data_type == time.data_type,
        r.slots() == moved_times(
            time.slots(),
            duration.slots(),
            time.data_type.counting_unit().unwrap(),
            duration.data_type.duration_unit().unwrap(),
            forward,
        ),
{
    let unit_t = counting_unit_of(&time.data_type).unwrap();
    let unit_d = duration_unit_of(&duration.data_type).unwrap();
    let n: usize = time.len();
    let ghost expected = moved_times(time.slots(), duration.slots(), unit_t, unit_d, forward);
    let mut values: Vec<Option<i64>> = Vec::new();
    let mut i: usize = 0;
    while i < n
        invariant
            i <= n,
            n == time.slots().len(),
            n == duration.slots().len(),
            expected == moved_times(time.slots(), duration.slots(), unit_t, unit_d, forward),
            values@ == expected.take(i as int),
        decreases n - i,
    {
        let slot: Option<i64> = match (time.get(i), duration.get(i)) {
            (Some(t), Some(d)) => {
                let delta: i64 = rescale(d, unit_d, unit_t);
                Some(
                    if forward {
                        t.wrapping_add(delta)
                    } else {
                        t.wrapping_sub(delta)
                    },
                )
            },
            _ => None,
        };
        values.push(slot);
        i += 1;
        assert(values@ =~= expected.take(i as int));
    }
    assert(values@ =~= expected);
    PrimitiveArray { data_type: time.data_type.duplicate(), values }
}

fn repeated(value: Option<i64>, n: usize) -> (r: Vec<Option<i64>>)
    ensures
        r@ == Seq::new(n as nat, |i: int| value),
{
    let mut values: Vec<Option<i64>> = Vec::new();
    let mut i: usize = 0;
    while i < n
        invariant
            i <= n,
            values@ == Seq::new(i as nat, |k: int| value),
        decreases n - i,
    {
        values.push(value);
        i += 1;
        assert(values@ =~= Seq::new(i as nat, |k: int| value));
    }
    values
}

/// Adds a duration to a 64-bit time array (timestamps, times of day, or
/// dates in milliseconds), slot by slot.
pub fn add_duration(time: &PrimitiveArray<i64>, duration: &PrimitiveArray<i64>) -> (r:
    PrimitiveArray<i64>)
    requires
        time.data_type.counting_unit() is Some,
        duration.data_type.duration_unit() is Some,
        time.slots().len() == duration.slots().len(),
    ensures
        r.data_type == time.data_type,
        r.slots() == moved_times(
            time.slots(),
            duration.slots(),
            time.data_type.counting_unit().unwrap(),
            duration.data_type.duration_unit().unwrap(),
            true,
        ),
{
    move_times(time, duration, true)
}

/// Subtracts a duration from a 64-bit time array, slot by slot.
pub fn subtract_duration(time: &PrimitiveArray<i64>, duration: &PrimitiveArray<i64>) -> (r:
    PrimitiveArray<i64>)
    requires
        time.data_type.counting_unit() is Some,
        duration.data_type.duration_unit() is Some,
        time.slots().len() == duration.slots().len(),
    ensures
        r.data_type == time.data_type,
        r.slots() == moved_times(
            time.slots(),
            duration.slots(),
            time.data_type.counting_unit().unwrap(),
            duration.data_type.duration_unit().unwrap(),
            false,
        ),
{
    move_times(time, duration, false)
}

/// Adds one duration to every slot of a 64-bit time array; a null duration
/// gives nulls.
pub fn add_duration_scalar(time: &PrimitiveArray<i64>, duration: &PrimitiveScalar<i64>) -> (r:
    PrimitiveArray<i64>)
    requires
        time.data_type.counting_unit() is Some,
        duration.data_type.duration_unit() is Some,
    ensures
        r.data_type == time.data_type,
        r.slots() == moved_times(
            time.slots(),
            Seq::new(time.slots().len(), |i: int| duration.value),
            time.data_type.counting_unit().unwrap(),
            duration.data_type.duration_unit().unwrap(),
            true,
        ),
{
    let all = PrimitiveArray {
        data_type: duration.data_type.duplicate(),
        values: repeated(duration.value, time.len()),
    };
    move_times(time, &all, true)
}

/// Subtracts one duration from every slot of a 64-bit time array; a null
/// duration gives nulls.
pub fn sub_duration_scalar(time: &PrimitiveArray<i64>, duration: &PrimitiveScalar<i64>) -> (r:
    PrimitiveArray<i64>)
    requires
        time.data_type.counting_unit() is Some,
        duration.data_type.duration_unit() is Some,
    ensures
        r.data_type == time.data_type,
        r.slots() == moved_times(
            time.slots(),
            Seq::new(time.slots().len(), |i: int| duration.value),
            time.data_type.counting_unit().unwrap(),
            duration.data_type.duration_unit().unwrap(),
            false,
        ),
{
    let all = PrimitiveArray {
        data_type: duration.data_type.duplicate(),
        values: repeated(duration.value, time.len()),
    };
    move_times(time, &all, false)
}

/// What the calendar made of the timestamps of a column: whether it could
/// read the time zone of the column, and for every slot the timestamp moved
/// by the interval that applies to the slot. The entry of a slot that stays
/// null is not looked at.
#[derive(Debug)]
pub struct CalendarSteps {
    pub zone_known: bool,
    pub moved: Vec<i64>,
}

/// The refusal of a time zone that the calendar could not read.
pub open spec fn zone_refusal(zone: Seq<char>) -> Seq<char> {
    "timezone \""@ + zone + "\" cannot be parsed (feature chrono-tz is not active)"@
}

/// The moved timestamp where both the timestamp and the interval of a slot
/// are there, and null elsewhere.
pub open spec fn moved_slots(
    times: Seq<Option<i64>>,
    intervals: Seq<Option<MonthsDaysNs>>,
    moved: Seq<i64>,
) -> Seq<Option<i64>> {
    Seq::new(
        times.len(),
        |i: int|
            match (times[i], intervals[i]) {
                (Some(_), Some(_)) => Some(moved[i]),
                _ => None,
            },
    )
}

/// Whether `r` is what moving a column by intervals, one per slot, comes
/// to. Only timestamps can be moved; those with a time zone only where the
/// calendar could read it. The result has the type of the column.
pub open spec fn moved_outcome(
    timestamp: PrimitiveArray<i64>,
    intervals: Seq<Option<MonthsDaysNs>>,
    steps: CalendarSteps,
    r: Result<PrimitiveArray<i64>, KernelError>,
) -> bool {
    match timestamp.data_type {
        ArrayType::Timestamp(_, Some(zone)) if !steps.zone_known => r is Err && r->Err_0.message()
            == zone_refusal(zone@),
        ArrayType::Timestamp(_, _) => r is Ok && r->Ok_0.data_type == timestamp.data_type
            && r->Ok_0.slots() == moved_slots(timestamp.slots(), intervals, steps.moved@),
        _ => r is Err && r->Err_0.message()
            == "Adding an interval is only supported for `DataType::Timestamp`"@,
    }
}

/// Whether `r` is what moving a column by one interval comes to: nulls of
/// the type of the column for a null interval, whatever the type.
pub open spec fn moved_by_scalar(
    timestamp: PrimitiveArray<i64>,
    interval: Option<MonthsDaysNs>,
    steps: CalendarSteps,
    r: Result<PrimitiveArray<i64>, KernelError>,
) -> bool {
    match interval {
        None => r is Ok && r->Ok_0.data_type == timestamp.data_type && r->Ok_0.slots() == Seq::new(
            timestamp.slots().len(),
            |i: int| None::<i64>,
        ),
        Some(_) => moved_outcome(
            timestamp,
            Seq::new(timestamp.slots().len(), |i: int| interval),
            steps,
            r,
        ),
    }
}

/// Whether `r` is what moving a column by a column of intervals comes to.
/// A single interval applies to every slot; otherwise the columns must be
/// equally long.
pub open spec fn moved_by_array(
    timestamp: PrimitiveArray<i64>,
    interval: PrimitiveArray<MonthsDaysNs>,
    steps: CalendarSteps,
    r: Result<PrimitiveArray<i64>, KernelError>,
) -> bool {
    if interval.slots().len() == 1 {
        moved_by_scalar(timestamp, interval.slots()[0], steps, r)
    } else if timestamp.slots().len() != interval.slots().len() {
        r is Err && r->Err_0.message()
            == "Timestamp and interval arrays must have the same length"@
    } else {
        moved_outcome(timestamp, interval.slots(), steps, r)
    }
}

fn move_slots(
    timestamp: &PrimitiveArray<i64>,
    interval: &Vec<Option<MonthsDaysNs>>,
    steps: &CalendarSteps,
) -> (r: Result<PrimitiveArray<i64>, KernelError>)
    requires
        steps.moved@.len() == timestamp.slots().len(),
        interval@.len() == timestamp.slots().len(),
    ensures
        moved_outcome(*timestamp, interval@, *steps, r),
{
    match &timestamp.data_type {
        ArrayType::Timestamp(_, zone) => {
            match zone {
                Some(name) => {
                    if !steps.zone_known {
                        let text = "timezone \"".to_string().concat(name.as_str()).concat(
                            "\" cannot be parsed (feature chrono-tz is not active)",
                        );
                        return Err(KernelError::InvalidArgumentError(text));
                    }
                },
                None => {},
            }
            let n: usize = timestamp.len();
            let ghost expected = moved_slots(timestamp.slots(), interval@, steps.moved@);
            let mut values: Vec<Option<i64>> = Vec::new();
            let mut i: usize = 0;
            while i < n
                invariant
                    i <= n,
                    n == timestamp.slots().len(),
                    n == interval@.len(),
                    n == steps.moved@.len(),
                    expected == moved_slots(timestamp.slots(), interval@, steps.moved@),
                    values@ == expected.take(i as int),
                decreases n - i,
            {
                let slot: Option<i64> = match (timestamp.get(i), interval[i]) {
                    (Some(_), Some(_)) => Some(steps.moved[i]),
                    _ => None,
                };
                values.push(slot);
                i += 1;
                assert(values@ =~= expected.take(i as int));
            }
            assert(values@ =~= expected);
            Ok(PrimitiveArray { data_type: timestamp.data_type.duplicate(), values })
        },
        _ => Err(invalid("Adding an interval is only supported for `DataType::Timestamp`")),
    }
}

fn repeated_interval(value: Option<MonthsDaysNs>, n: usize) -> (r: Vec<Option<MonthsDaysNs>>)
    ensures
        r@ == Seq::new(n as nat, |i: int| value),
{
    let mut values: Vec<Option<MonthsDaysNs>> = Vec::new();
    let mut i: usize = 0;
    while i < n
        invariant
            i <= n,
            values@ == Seq::new(i as nat, |k: int| value),
        decreases n - i,
    {
        values.push(value);
        i += 1;
        assert(values@ =~= Seq::new(i as nat, |k: int| value));
    }
    values
}

fn move_by_scalar(
    timestamp: &PrimitiveArray<i64>,
    interval: Option<MonthsDaysNs>,
    steps: &CalendarSteps,
) -> (r: Result<PrimitiveArray<i64>, KernelError>)
    requires
        steps.moved@.len() == timestamp.slots().len(),
    ensures
        moved_by_scalar(*timestamp, interval, *steps, r),
{
    match interval {
        None => Ok(PrimitiveArray::new_null(timestamp.data_type.duplicate(), timestamp.len())),
        Some(_) => {
            let all = repeated_interval(interval, timestamp.len());
            move_slots(timestamp, &all, steps)
        },
    }
}

fn move_by_array(
    timestamp: &PrimitiveArray<i64>,
    interval: &PrimitiveArray<MonthsDaysNs>,
    steps: &CalendarSteps,
) -> (r: Result<PrimitiveArray<i64>, KernelError>)
    requires
        steps.moved@.len() == timestamp.slots().len(),
    ensures
        moved_by_array(*timestamp, *interval, *steps, r),
{
    if interval.len() == 1 {
        return move_by_scalar(timestamp, interval.get(0), steps);
    }
    if timestamp.len() != interval.len() {
        return Err(invalid("Timestamp and interval arrays must have the same length"));
    }
    move_slots(timestamp, &interval.values, steps)
}

/// Adds intervals to timestamps. `steps` holds what the calendar made of
/// adding, to the timestamp of each slot, the interval that applies to it.
pub fn add_interval(
    timestamp: &PrimitiveArray<i64>,
    interval: &PrimitiveArray<MonthsDaysNs>,
    steps: &CalendarSteps,
) -> (r: Result<PrimitiveArray<i64>, KernelError>)
    requires
        steps.moved@.len() == timestamp.slots().len(),
    ensures
        moved_by_array(*timestamp, *interval, *steps, r),
{
    move_by_array(timestamp, interval, steps)
}

/// Adds one interval to timestamps. `steps` holds what the calendar made of
/// adding the interval to the timestamp of each slot.
pub fn add_interval_scalar(
    timestamp: &PrimitiveArray<i64>,
    interval: &PrimitiveScalar<MonthsDaysNs>,
    steps: &CalendarSteps,
) -> (r: Result<PrimitiveArray<i64>, KernelError>)
    requires
        steps.moved@.len() == timestamp.slots().len(),
    ensures
        moved_by_scalar(*timestamp, interval.value, *steps, r),
{
    move_by_scalar(timestamp, interval.value, steps)
}

/// Subtracts intervals from timestamps. `steps` holds what the calendar made
/// of subtracting, from the timestamp of each slot, the interval that
/// applies to it.
pub fn sub_interval(
    timestamp: &PrimitiveArray<i64>,
    interval: &PrimitiveArray<MonthsDaysNs>,
    steps: &CalendarSteps,
) -> (r: Result<PrimitiveArray<i64>, KernelError>)
    requires
        steps.moved@.len() == timestamp.slots().len(),
    ensures
        moved_by_array(*timestamp, *interval, *steps, r),
{
    move_by_array(timestamp, interval, steps)
}

/// Subtracts one interval from timestamps. `steps` holds what the calendar
/// made of subtracting the interval from the timestamp of each slot.
pub fn sub_interval_scalar(
    timestamp: &PrimitiveArray<i64>,
    interval: &PrimitiveScalar<MonthsDaysNs>,
    steps: &CalendarSteps,
) -> (r: Result<PrimitiveArray<i64>, KernelError>)
    requires
        steps.moved@.len() == timestamp.slots().len(),
    ensures
        moved_by_scalar(*timestamp, interval.value, *steps, r),
{
    move_by_scalar(timestamp, interval.value, steps)
}

/// The double nearest to the number of days in one unit of a duration is
/// `day_mantissa` divided by `day_divisor`, a power of two: the quotient, in
/// double precision, of the seconds in one unit and the seconds of a day.
pub open spec fn day_mantissa(digits: int) -> int {
    if digits == 3 {
        6_996_098_493_140_215
    } else if digits == 6 {
        7_164_004_856_975_580
    } else if digits == 9 {
        7_335_940_973_542_995
    } else {
        6_832_127_434_707_241
    }
}

/// See `day_mantissa`.
pub open spec fn day_divisor(digits: int) -> int {
    if digits == 3 {
        604_462_909_807_314_587_353_088
    } else if digits == 6 {
        618_970_019_642_690_137_449_562_112
    } else if digits == 9 {
        633_825_300_114_114_700_748_351_602_688
    } else {
        590_295_810_358_705_651_712
    }
}

/// `x` brought into the range of `i32`.
pub open spec fn clamped_32(x: int) -> i32 {
    if x > i32::MAX {
        i32::MAX
    } else if x < i32::MIN {
        i32::MIN
    } else {
        x as i32
    }
}

/// A count of `from` units expressed in whole days, computed as in
/// double-precision arithmetic and cut toward zero.
pub open spec fn in_days(value: i64, from: TimeUnit) -> i64 {
    let x = if value >= 0 {
        value as int
    } else {
        -(value as int)
    };
    let whole = nearest_double(nearest_double(x) * day_mantissa(from.digits())) / day_divisor(
        from.digits(),
    );
    if value >= 0 {
        clamped(whole)
    } else {
        clamped(-whole)
    }
}

/// Whether the type is that of a 32-bit time array: dates in days, or
/// times of day.
pub open spec fn counts_32(data_type: ArrayType) -> bool {
    data_type is Time32 || data_type is Date32
}

/// A duration in the counts of a 32-bit time array: days for dates, the
/// unit of the array for times of day; held to the range of `i32`.
pub open spec fn rescaled_32(value: i64, from: TimeUnit, data_type: ArrayType) -> i32 {
    match data_type {
        ArrayType::Time32(unit) => clamped_32(rescaled(value, from, unit) as int),
        _ => clamped_32(in_days(value, from) as int),
    }
}

fn clamp_32(x: i64) -> (r: i32)
    ensures
        r == clamped_32(x as int),
{
    if x > 2_147_483_647 {
        i32::MAX
    } else if x < -2_147_483_648 {
        i32::MIN
    } else {
        x as i32
    }
}

/// Expresses a count of `from` units in whole days, as double-precision
/// arithmetic would.
pub fn to_days(value: i64, from: TimeUnit) -> (r: i64)
    ensures
        r == in_days(value, from),
{
    let steps: u8 = from.exponent();
    let negative: bool = value < 0;
    let x: u128 = if negative {
        (-(value as i128)) as u128
    } else {
        value as u128
    };
    let v: u128 = nearest(x);
    let m: u128 = if steps == 3 {
        6_996_098_493_140_215
    } else if steps == 6 {
        7_164_004_856_975_580
    } else if steps == 9 {
        7_335_940_973_542_995
    } else {
        6_832_127_434_707_241
    };
    let d: u128 = if steps == 3 {
        604_462_909_807_314_587_353_088
    } else if steps == 6 {
        618_970_019_642_690_137_449_562_112
    } else if steps == 9 {
        633_825_300_114_114_700_748_351_602_688
    } else {
        590_295_810_358_705_651_712
    };
    assert(v * m <= 0x1_0000_0000_0000_0000u128 * 7_335_940_973_542_995) by (nonlinear_arith)
        requires
            v <= 0x1_0000_0000_0000_0000u128,
            m <= 7_335_940_973_542_995,
    ;
    let t: u128 = nearest(v * m) / d;
    clamp_magnitude(t, negative)
}

/// A duration in the counts of a 32-bit time array.
pub fn rescale_32(value: i64, from: TimeUnit, data_type: &ArrayType) -> (r: i32)
    ensures
        r == rescaled_32(value, from, *data_type),
{
    match data_type {
        ArrayType::Time32(unit) => clamp_32(rescale(value, from, *unit)),
        _ => clamp_32(to_days(value, from)),
    }
}

/// Every 32-bit time moved by the duration in the same slot, as
/// `moved_times` does for 64-bit times.
pub open spec fn moved_times_32(
    times: Seq<Option<i32>>,
    durations: Seq<Option<i64>>,
    data_type: ArrayType,
    duration_unit: TimeUnit,
    forward: bool,
) -> Seq<Option<i32>> {
    Seq::new(
        times.len(),
        |i: int|
            match (times[i], durations[i]) {
                (Some(t), Some(d)) => Some(
                    if forward {
                        t.wrapping_add(rescaled_32(d, duration_unit, data_type))
                    } else {
                        t.wrapping_sub(rescaled_32(d, duration_unit, data_type))
                    },
                ),
                _ => None,
            },
    )
}

fn move_times_32(time: &PrimitiveArray<i32>, duration: &PrimitiveArray<i64>, forward: bool) -> (r:
    PrimitiveArray<i32>)
    requires
        counts_32(time.data_type),
        duration.data_type.duration_unit() is Some,
        time.slots().len() == duration.slots().len(),
    ensures
        r.data_type == time.data_type,
        r.slots() == moved_times_32(
            time.slots(),
            duration.slots(),
            time.data_type,
            duration.data_type.duration_unit().unwrap(),
            forward,
        ),
{
    let unit_d = duration_unit_of(&duration.data_type).unwrap();
    let n: usize = time.len();
    let ghost expected = moved_times_32(
        time.slots(),
        duration.slots(),
        time.data_type,
        unit_d,
        forward,
    );
    let mut values: Vec<Option<i32>> = Vec::new();
    let mut i: usize = 0;
    while i < n
        invariant
            i <= n,
            n == time.slots().len(),
            n == duration.slots().len(),
            expected == moved_times_32(
                time.slots(),
                duration.slots(),
                time.data_type,
                unit_d,
                forward,
            ),
            values@ == expected.take(i as int),
        decreases n - i,
    {
        let slot: Option<i32> = match (time.get(i), duration.get(i)) {
            (Some(t), Some(d)) => {
                let delta: i32 = rescale_32(d, unit_d, &time.data_type);
                Some(
                    if forward {
                        t.wrapping_add(delta)
                    } else {
                        t.wrapping_sub(delta)
                    },
                )
            },
            _ => None,
        };
        values.push(slot);
        i += 1;
        assert(values@ =~= expected.take(i as int));
    }
    assert(values@ =~= expected);
    PrimitiveArray { data_type: time.data_type.duplicate(), values }
}

/// Adds a duration to a 32-bit time array (dates in days or times of day),
/// slot by slot.
pub fn add_duration_32(time: &PrimitiveArray<i32>, duration: &PrimitiveArray<i64>) -> (r:
    PrimitiveArray<i32>)
    requires
        counts_32(time.data_type),
        duration.data_type.duration_unit() is Some,
        time.slots().len() == duration.slots().len(),
    ensures
        r.data_type == time.data_type,
        r.slots() == moved_times_32(
            time.slots(),
            duration.slots(),
            time.data_type,
            duration.data_type.duration_unit().unwrap(),
            true,
        ),
{
    move_times_32(time, duration, true)
}

/// Subtracts a duration from a 32-bit time array, slot by slot.
pub fn subtract_duration_32(time: &PrimitiveArray<i32>, duration: &PrimitiveArray<i64>) -> (r:
    PrimitiveArray<i32>)
    requires
        counts_32(time.data_type),
        duration.data_type.duration_unit() is Some,
        time.slots().len() == duration.slots().len(),
    ensures
        r.data_type == time.data_type,
        r.slots() == moved_times_32(
            time.slots(),
            duration.slots(),
            time.data_type,
            duration.data_type.duration_unit().unwrap(),
            false,
        ),
{
    move_times_32(time, duration, false)
}

/// Adds one duration to every slot of a 32-bit time array; a null duration
/// gives nulls.
pub fn add_duration_scalar_32(time: &PrimitiveArray<i32>, duration: &PrimitiveScalar<i64>) -> (r:
    PrimitiveArray<i32>)
    requires
        counts_32(time.data_type),
        duration.data_type.duration_unit() is Some,
    ensures
        r.data_type == time.data_type,
        r.slots() == moved_times_32(
            time.slots(),
            Seq::new(time.slots().len(), |i: int| duration.value),
            time.data_type,
            duration.data_type.duration_unit().unwrap(),
            true,
        ),
{
    let all = PrimitiveArray {
        data_type: duration.data_type.duplicate(),
        values: repeated(duration.value, time.len()),
    };
    move_times_32(time, &all, true)
}

/// Subtracts one duration from every slot of a 32-bit time array; a null
/// duration gives nulls.
pub fn sub_duration_scalar_32(time: &PrimitiveArray<i32>, duration: &PrimitiveScalar<i64>) -> (r:
    PrimitiveArray<i32>)
    requires
        counts_32(time.data_type),
        duration.data_type.duration_unit() is Some,
    ensures
        r.data_type == time.data_type,
        r.slots() == moved_times_32(
            time.slots(),
            Seq::new(time.slots().len(), |i: int| duration.value),
            time.data_type,
            duration.data_type.duration_unit().unwrap(),
            false,
        ),
{
    let all = PrimitiveArray {
        data_type: duration.data_type.duplicate(),
        values: repeated(duration.value, time.len()),
    };
    move_times_32(time, &all, false)
}

} // verus!
