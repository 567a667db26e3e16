use local_engine::temporal::{
    add_duration, add_duration_32, add_duration_scalar, add_duration_scalar_32, add_interval,
    rescale_32, sub_duration_scalar_32, subtract_duration_32, to_days, add_interval_scalar, mul_interval,
    mul_interval_scalar, rescale, sub_duration_scalar, sub_interval, sub_interval_scalar,
    sub_timestamps_scalar, subtract_duration, subtract_timestamps, ArrayType, CalendarSteps,
    KernelError, MonthsDaysNs, PrimitiveArray, PrimitiveScalar, TimeUnit,
};

fn timestamps(unit: TimeUnit, values: Vec<Option<i64>>) -> PrimitiveArray<i64> {
    PrimitiveArray::new(ArrayType::Timestamp(unit, None), values)
}

fn message(e: KernelError) -> String {
    e.to_text()
}

#[test]
fn subtract_timestamps_same_unit() {
    let a = timestamps(
        TimeUnit::Second,
        vec![Some(100_010), Some(200_020), None, Some(300_030)],
    );
    let b = timestamps(
        TimeUnit::Second,
        vec![Some(100_000), Some(200_000), None, Some(300_000)],
    );
    let r = subtract_timestamps(&a, &b).unwrap();
    assert!(matches!(r.data_type, ArrayType::Duration(TimeUnit::Second)));
    assert_eq!(r.values, vec![Some(10), Some(20), None, Some(30)]);
}

#[test]
fn subtract_timestamps_rescales_right_operand() {
    let a = timestamps(TimeUnit::Millisecond, vec![Some(5_000), Some(1)]);
    let b = timestamps(TimeUnit::Second, vec![Some(2), None]);
    let r = subtract_timestamps(&a, &b).unwrap();
    assert!(matches!(r.data_type, ArrayType::Duration(TimeUnit::Millisecond)));
    assert_eq!(r.values, vec![Some(3_000), None]);

    let c = timestamps(TimeUnit::Second, vec![Some(10), Some(10)]);
    let d = timestamps(TimeUnit::Millisecond, vec![Some(2_999), Some(-2_999)]);
    let r = subtract_timestamps(&c, &d).unwrap();
    assert_eq!(r.values, vec![Some(8), Some(12)]);
}

#[test]
fn subtract_timestamps_rejects_time_zones_and_other_types() {
    let a = PrimitiveArray::new(
        ArrayType::Timestamp(TimeUnit::Second, Some("UTC".to_string())),
        vec![Some(1i64)],
    );
    let b = timestamps(TimeUnit::Second, vec![Some(1)]);
    let e = subtract_timestamps(&a, &b).unwrap_err();
    assert_eq!(message(e), "Incorrect data type for the arguments");
    let c = PrimitiveArray::new(ArrayType::Int64, vec![Some(1i64)]);
    assert!(subtract_timestamps(&b, &c).is_err());
}

#[test]
fn rescale_multiplies_truncates_and_saturates() {
    assert_eq!(rescale(7, TimeUnit::Second, TimeUnit::Nanosecond), 7_000_000_000);
    assert_eq!(rescale(7_999, TimeUnit::Millisecond, TimeUnit::Second), 7);
    assert_eq!(rescale(-7_999, TimeUnit::Millisecond, TimeUnit::Second), -7);
    assert_eq!(rescale(3_000, TimeUnit::Millisecond, TimeUnit::Second), 3);
    assert_eq!(rescale(5, TimeUnit::Microsecond, TimeUnit::Microsecond), 5);
    assert_eq!(rescale(i64::MAX, TimeUnit::Second, TimeUnit::Millisecond), i64::MAX);
    assert_eq!(rescale(i64::MIN, TimeUnit::Second, TimeUnit::Microsecond), i64::MIN);
    // beyond two to the power 53 the low bits are lost
    assert_eq!(
        rescale(9_007_199_254_740_993, TimeUnit::Second, TimeUnit::Second),
        9_007_199_254_740_992
    );
    assert_eq!(
        rescale(1_700_000_000_123_456_789, TimeUnit::Nanosecond, TimeUnit::Nanosecond),
        1_700_000_000_123_456_768
    );
}

fn scale(from: TimeUnit, to: TimeUnit) -> f64 {
    let digits = |u: TimeUnit| match u {
        TimeUnit::Second => 0,
        TimeUnit::Millisecond => 3,
        TimeUnit::Microsecond => 6,
        TimeUnit::Nanosecond => 9,
    };
    match digits(to) - digits(from) {
        0 => 1.0,
        3 => 1_000.0,
        6 => 1_000_000.0,
        9 => 1_000_000_000.0,
        -3 => 0.001,
        -6 => 0.000_001,
        _ => 0.000_000_001,
    }
}

#[test]
fn rescale_agrees_with_double_precision_arithmetic() {
    let units = [
        TimeUnit::Second,
        TimeUnit::Millisecond,
        TimeUnit::Microsecond,
        TimeUnit::Nanosecond,
    ];
    let mut values: Vec<i64> = vec![
        0,
        1,
        -1,
        999,
        1_000,
        1_001,
        2_999,
        3_000,
        (1 << 53) - 1,
        1 << 53,
        (1 << 53) + 1,
        (1 << 53) + 3,
        -((1 << 53) + 1),
        i64::MAX,
        i64::MAX - 511,
        i64::MIN,
        i64::MIN + 1,
        9_223_372_036_854_775,
        9_223_372_036_854_776,
    ];
    let mut state: u64 = 0x2545_F491_4F6C_DD1D;
    for i in 0..20_000u64 {
        state = state
            .wrapping_mul(6_364_136_223_846_793_005)
            .wrapping_add(1_442_695_040_888_963_407);
        let bits = (i % 64) as u32;
        values.push((state as i64) >> bits);
    }
    for from in units {
        for to in units {
            let s = scale(from, to);
            for &v in &values {
                let expected = (v as f64 * s) as i64;
                assert_eq!(rescale(v, from, to), expected, "{v} from {from:?} to {to:?}");
            }
        }
    }
}

#[test]
fn sub_timestamps_scalar_subtracts_everywhere() {
    let a = timestamps(TimeUnit::Second, vec![Some(100), None, Some(-5)]);
    let s = PrimitiveScalar {
        data_type: ArrayType::Timestamp(TimeUnit::Second, None),
        value: Some(40i64),
    };
    let r = sub_timestamps_scalar(&a, &s).unwrap();
    assert!(matches!(r.data_type, ArrayType::Duration(TimeUnit::Second)));
    assert_eq!(r.values, vec![Some(60), None, Some(-45)]);
}

#[test]
fn sub_timestamps_scalar_null_gives_nulls_of_the_left_type() {
    let a = timestamps(TimeUnit::Microsecond, vec![Some(100), Some(3)]);
    let s = PrimitiveScalar {
        data_type: ArrayType::Timestamp(TimeUnit::Second, None),
        value: None,
    };
    let r = sub_timestamps_scalar(&a, &s).unwrap();
    assert!(matches!(
        r.data_type,
        ArrayType::Timestamp(TimeUnit::Microsecond, None)
    ));
    assert_eq!(r.values, vec![None, None]);
}

#[test]
fn sub_timestamps_scalar_rejects_other_types() {
    let a = timestamps(TimeUnit::Second, vec![Some(100)]);
    let s = PrimitiveScalar {
        data_type: ArrayType::Duration(TimeUnit::Second),
        value: Some(1i64),
    };
    let e = sub_timestamps_scalar(&a, &s).unwrap_err();
    assert_eq!(
        message(e),
        "sub_timestamps_scalar requires both arguments to be timestamps without timezone"
    );
}

fn interval(months: i32, days: i32, ns: i64) -> MonthsDaysNs {
    MonthsDaysNs { months, days, ns }
}

#[test]
fn mul_interval_slot_by_slot() {
    let a = PrimitiveArray::new(
        ArrayType::Interval,
        vec![Some(interval(1, 2, 3)), None, Some(interval(-1, 0, 10))],
    );
    let f = PrimitiveArray::new(ArrayType::Int32, vec![Some(2), Some(5), None]);
    let r = mul_interval(&a, &f).unwrap();
    assert!(matches!(r.data_type, ArrayType::Interval));
    assert_eq!(r.values, vec![Some(interval(2, 4, 6)), None, None]);
}

#[test]
fn mul_interval_single_factor_acts_as_scalar() {
    let a = PrimitiveArray::new(
        ArrayType::Interval,
        vec![Some(interval(1, 2, 3)), Some(interval(0, -4, 7))],
    );
    let f = PrimitiveArray::new(ArrayType::Int32, vec![Some(-3)]);
    let r = mul_interval(&a, &f).unwrap();
    assert_eq!(
        r.values,
        vec![Some(interval(-3, -6, -9)), Some(interval(0, 12, -21))]
    );
}

#[test]
fn mul_interval_rejects_unequal_lengths() {
    let a = PrimitiveArray::new(ArrayType::Interval, vec![Some(interval(1, 2, 3))]);
    let f = PrimitiveArray::new(ArrayType::Int32, vec![Some(2), Some(3)]);
    let e = mul_interval(&a, &f).unwrap_err();
    assert_eq!(
        message(e),
        "Interval and factor arrays must have the same length"
    );
}

#[test]
fn mul_interval_scalar_wraps_and_handles_null() {
    let a = PrimitiveArray::new(
        ArrayType::Interval,
        vec![Some(interval(i32::MAX, 1, i64::MAX)), None],
    );
    let two = PrimitiveScalar {
        data_type: ArrayType::Int32,
        value: Some(2),
    };
    let r = mul_interval_scalar(&a, &two).unwrap();
    assert_eq!(r.values, vec![Some(interval(-2, 2, -2)), None]);
    let null = PrimitiveScalar {
        data_type: ArrayType::Int32,
        value: None,
    };
    let r = mul_interval_scalar(&a, &null).unwrap();
    assert_eq!(r.values, vec![None, None]);
}

fn durations(unit: TimeUnit, values: Vec<Option<i64>>) -> PrimitiveArray<i64> {
    PrimitiveArray::new(ArrayType::Duration(unit), values)
}

#[test]
fn add_and_subtract_duration_slot_by_slot() {
    let time = PrimitiveArray::new(
        ArrayType::Timestamp(TimeUnit::Second, Some("America/New_York".to_string())),
        vec![Some(100_000i64), Some(200_000), None, Some(300_000)],
    );
    let d = durations(TimeUnit::Second, vec![Some(10), Some(20), None, Some(30)]);
    let r = add_duration(&time, &d);
    assert!(matches!(
        &r.data_type,
        ArrayType::Timestamp(TimeUnit::Second, Some(z)) if z == "America/New_York"
    ));
    assert_eq!(
        r.values,
        vec![Some(100_010), Some(200_020), None, Some(300_030)]
    );
    let r = subtract_duration(&time, &d);
    assert_eq!(
        r.values,
        vec![Some(99_990), Some(199_980), None, Some(299_970)]
    );
}

#[test]
fn durations_are_scaled_to_the_unit_of_the_time() {
    let date = PrimitiveArray::new(ArrayType::Date64, vec![Some(1_000i64), Some(0)]);
    let d = durations(TimeUnit::Second, vec![Some(2), Some(-1)]);
    assert_eq!(add_duration(&date, &d).values, vec![Some(3_000), Some(-1_000)]);
    let time = PrimitiveArray::new(
        ArrayType::Time64(TimeUnit::Microsecond),
        vec![Some(5i64), None],
    );
    let d = durations(TimeUnit::Nanosecond, vec![Some(2_999), Some(1)]);
    assert_eq!(subtract_duration(&time, &d).values, vec![Some(3), None]);
}

#[test]
fn duration_scalars() {
    let time = timestamps(TimeUnit::Millisecond, vec![Some(10), None, Some(-10)]);
    let one = PrimitiveScalar {
        data_type: ArrayType::Duration(TimeUnit::Second),
        value: Some(1i64),
    };
    assert_eq!(
        add_duration_scalar(&time, &one).values,
        vec![Some(1_010), None, Some(990)]
    );
    assert_eq!(
        sub_duration_scalar(&time, &one).values,
        vec![Some(-990), None, Some(-1_010)]
    );
    let null = PrimitiveScalar {
        data_type: ArrayType::Duration(TimeUnit::Second),
        value: None,
    };
    let r = add_duration_scalar(&time, &null);
    assert_eq!(r.values, vec![None, None, None]);
    assert!(matches!(
        r.data_type,
        ArrayType::Timestamp(TimeUnit::Millisecond, None)
    ));
}

fn intervals(values: Vec<Option<MonthsDaysNs>>) -> PrimitiveArray<MonthsDaysNs> {
    PrimitiveArray::new(ArrayType::Interval, values)
}

fn calendar(zone_known: bool, moved: Vec<i64>) -> CalendarSteps {
    CalendarSteps { zone_known, moved }
}

#[test]
fn intervals_move_the_slots_that_hold_both_operands() {
    let time = timestamps(TimeUnit::Second, vec![Some(1), None, Some(3)]);
    let by = intervals(vec![Some(interval(1, 0, 0)), Some(interval(1, 0, 0)), None]);
    let r = add_interval(&time, &by, &calendar(true, vec![101, 102, 103])).unwrap();
    assert_eq!(r.values, vec![Some(101), None, None]);
    assert!(matches!(
        r.data_type,
        ArrayType::Timestamp(TimeUnit::Second, None)
    ));
    let r = sub_interval(&time, &by, &calendar(false, vec![-1, -2, -3])).unwrap();
    assert_eq!(r.values, vec![Some(-1), None, None]);
}

#[test]
fn a_single_interval_applies_to_every_slot() {
    let time = timestamps(TimeUnit::Millisecond, vec![Some(1), None, Some(3)]);
    let steps = calendar(true, vec![11, 12, 13]);
    let one = intervals(vec![Some(interval(0, 1, 0))]);
    assert_eq!(
        add_interval(&time, &one, &steps).unwrap().values,
        vec![Some(11), None, Some(13)]
    );
    let null = intervals(vec![None]);
    assert_eq!(
        sub_interval(&time, &null, &steps).unwrap().values,
        vec![None, None, None]
    );
    let scalar = PrimitiveScalar {
        data_type: ArrayType::Interval,
        value: Some(interval(0, 1, 0)),
    };
    assert_eq!(
        add_interval_scalar(&time, &scalar, &steps).unwrap().values,
        vec![Some(11), None, Some(13)]
    );
    assert_eq!(
        sub_interval_scalar(&time, &scalar, &steps).unwrap().values,
        vec![Some(11), None, Some(13)]
    );
}

#[test]
fn interval_kernels_refuse_lengths_types_and_unread_zones() {
    let time = timestamps(TimeUnit::Second, vec![Some(1), Some(2)]);
    let steps = calendar(true, vec![5, 6]);
    let three = intervals(vec![None, None, None]);
    assert_eq!(
        message(add_interval(&time, &three, &steps).unwrap_err()),
        "Timestamp and interval arrays must have the same length"
    );
    let dates = PrimitiveArray::new(ArrayType::Date64, vec![Some(1i64), Some(2)]);
    let two = intervals(vec![Some(interval(1, 1, 1)), None]);
    assert_eq!(
        message(sub_interval(&dates, &two, &steps).unwrap_err()),
        "Adding an interval is only supported for `DataType::Timestamp`"
    );
    // a null interval gives nulls whatever the type
    let null = PrimitiveScalar {
        data_type: ArrayType::Interval,
        value: None,
    };
    let r = add_interval_scalar(&dates, &null, &steps).unwrap();
    assert_eq!(r.values, vec![None, None]);
    assert!(matches!(r.data_type, ArrayType::Date64));
    let zoned = PrimitiveArray::new(
        ArrayType::Timestamp(TimeUnit::Second, Some("Mars/Olympus".to_string())),
        vec![Some(1i64), Some(2)],
    );
    assert_eq!(
        message(add_interval(&zoned, &two, &calendar(false, vec![0, 0])).unwrap_err()),
        "timezone \"Mars/Olympus\" cannot be parsed (feature chrono-tz is not active)"
    );
    assert_eq!(
        add_interval(&zoned, &two, &steps).unwrap().values,
        vec![Some(5), None]
    );
}

#[test]
fn durations_on_dates_count_whole_days() {
    let dates = PrimitiveArray::new(ArrayType::Date32, vec![Some(10i32), None, Some(-3)]);
    let d = durations(
        TimeUnit::Second,
        vec![Some(86_400 * 2), Some(1), Some(86_399)],
    );
    let r = add_duration_32(&dates, &d);
    assert!(matches!(r.data_type, ArrayType::Date32));
    assert_eq!(r.values, vec![Some(12), None, Some(-3)]);
    assert_eq!(
        subtract_duration_32(&dates, &d).values,
        vec![Some(8), None, Some(-3)]
    );
    let week = PrimitiveScalar {
        data_type: ArrayType::Duration(TimeUnit::Millisecond),
        value: Some(7 * 86_400_000i64),
    };
    assert_eq!(
        add_duration_scalar_32(&dates, &week).values,
        vec![Some(17), None, Some(4)]
    );
    assert_eq!(
        sub_duration_scalar_32(&dates, &week).values,
        vec![Some(3), None, Some(-10)]
    );
}

#[test]
fn durations_on_times_of_day_are_rescaled_and_held_to_32_bits() {
    let times = PrimitiveArray::new(
        ArrayType::Time32(TimeUnit::Millisecond),
        vec![Some(5i32), Some(i32::MAX)],
    );
    let d = durations(TimeUnit::Second, vec![Some(2), Some(1)]);
    assert_eq!(
        add_duration_32(&times, &d).values,
        vec![Some(2_005), Some(i32::MIN + 999)]
    );
    assert_eq!(
        rescale_32(i64::MAX, TimeUnit::Second, &ArrayType::Time32(TimeUnit::Second)),
        i32::MAX
    );
    let null = PrimitiveScalar {
        data_type: ArrayType::Duration(TimeUnit::Second),
        value: None,
    };
    assert_eq!(add_duration_scalar_32(&times, &null).values, vec![None, None]);
}

#[test]
fn day_scaling_agrees_with_double_precision_arithmetic() {
    let units = [
        (TimeUnit::Second, 1.0),
        (TimeUnit::Millisecond, 0.001),
        (TimeUnit::Microsecond, 0.000_001),
        (TimeUnit::Nanosecond, 0.000_000_001),
    ];
    let mut values: Vec<i64> = vec![
        0,
        1,
        -1,
        86_399,
        86_400,
        86_401,
        -86_400,
        86_400 * 5,
        i64::MAX,
        i64::MIN,
        (1 << 53) + 1,
    ];
    let mut state: u64 = 0x9E37_79B9_7F4A_7C15;
    for i in 0..20_000u64 {
        state = state
            .wrapping_mul(6_364_136_223_846_793_005)
            .wrapping_add(1_442_695_040_888_963_407);
        values.push((state as i64) >> ((i % 64) as u32));
    }
    for (unit, seconds) in units {
        let scale = seconds / 86_400.0;
        for &v in &values {
            assert_eq!(to_days(v, unit), (v as f64 * scale) as i64, "{v} {unit:?}");
            assert_eq!(
                rescale_32(v, unit, &ArrayType::Date32),
                (v as f64 * scale) as i32,
                "{v} {unit:?}"
            );
        }
    }
}
