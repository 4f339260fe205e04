use serial_write::{Fixed, Job, Scientific, Step, Width, Writer, F32_EXP, F64_EXP, U64_BASE};

fn run<E>(
    writer: &mut Writer,
    mut job: Job<'_>,
    mut sink: impl FnMut(&[u8]) -> Result<usize, E>,
) -> Result<usize, (E, usize)> {
    let mut answer = None;
    loop {
        match job.step(writer, answer) {
            Step::Write(bytes) => answer = Some(sink(bytes)),
            Step::Done(result) => return result,
        }
    }
}

fn text(writer: &mut Writer, job: Job<'_>) -> (String, usize) {
    let mut out = Vec::new();
    let result: Result<usize, ((), usize)> = run(writer, job, |bytes| {
        out.extend_from_slice(bytes);
        Ok(bytes.len())
    });
    (String::from_utf8(out).unwrap(), result.unwrap())
}

fn pieces(writer: &mut Writer, job: Job<'_>) -> Vec<String> {
    let mut out = Vec::new();
    let result: Result<usize, ((), usize)> = run(writer, job, |bytes| {
        out.push(String::from_utf8(bytes.to_vec()).unwrap());
        Ok(bytes.len())
    });
    result.unwrap();
    out
}

fn fixed_f32(val: f32, nodp: usize) -> Fixed {
    let mut f = val;
    let negative = f < 0.0;
    if negative {
        f = -f;
    }
    let mut blocks = 0;
    while f > U64_BASE as f32 * U64_BASE as f32 {
        f /= U64_BASE as f32;
        blocks += 1;
    }
    let mut shifts = 0;
    while f > U64_BASE as f32 {
        f /= 10.0;
        shifts += 1;
    }
    let whole = f as u64;
    let fraction = if nodp == 0 {
        0
    } else {
        ((f - whole as f32) * F32_EXP[Width::Single.places(nodp)] as f32) as u64
    };
    Fixed { negative, whole, blocks, shifts, fraction }
}

fn fixed_f64(val: f64, nodp: usize) -> Fixed {
    let mut f = val;
    let negative = f < 0.0;
    if negative {
        f = -f;
    }
    let mut blocks = 0;
    while f > U64_BASE as f64 * U64_BASE as f64 {
        f /= U64_BASE as f64;
        blocks += 1;
    }
    let mut shifts = 0;
    while f > U64_BASE as f64 {
        f /= 10.0;
        shifts += 1;
    }
    let whole = f as u64;
    let fraction = if nodp == 0 {
        0
    } else {
        ((f - whole as f64) * F64_EXP[Width::Double.places(nodp)] as f64) as u64
    };
    Fixed { negative, whole, blocks, shifts, fraction }
}

fn scientific_f32(val: f32, nodp: usize) -> Scientific {
    let mut f = val;
    let mut exponent: i16 = 0;
    let negative = f < 0.0;
    if negative {
        f = -f;
    }
    while f >= 10.0 {
        exponent += 1;
        f /= 10.0;
    }
    while f < 1.0 {
        exponent -= 1;
        f *= 10.0;
    }
    Scientific { negative, mantissa: fixed_f32(f, nodp), exponent }
}

fn scientific_f64(val: f64, nodp: usize) -> Scientific {
    let mut f = val;
    let mut exponent: i16 = 0;
    let negative = f < 0.0;
    if negative {
        f = -f;
    }
    while f >= 10.0 {
        exponent += 1;
        f /= 10.0;
    }
    while f < 1.0 {
        exponent -= 1;
        f *= 10.0;
    }
    Scientific { negative, mantissa: fixed_f64(f, nodp), exponent }
}

fn plain(whole: u64, fraction: u64) -> Fixed {
    Fixed { negative: false, whole, blocks: 0, shifts: 0, fraction }
}

#[test]
fn fixed_truncates_to_two_places() {
    let mut w = Writer::new();
    let job = w.write_f32(fixed_f32(12.345, 2), 2);
    assert_eq!(text(&mut w, job), ("12.34".to_string(), 5));
    let job = w.write_f64(fixed_f64(12.345, 2), 2);
    assert_eq!(text(&mut w, job), ("12.34".to_string(), 5));
}

#[test]
fn fixed_shows_four_places() {
    let mut w = Writer::new();
    let job = w.write_f32(fixed_f32(12.345, 4), 4);
    assert_eq!(text(&mut w, job), ("12.3450".to_string(), 7));
}

#[test]
fn scientific_two_places() {
    let mut w = Writer::new();
    let job = w.write_f32_exp(scientific_f32(12.345, 2), 2);
    assert_eq!(text(&mut w, job), (" 1.23e001".to_string(), 9));
    let job = w.write_f64_exp(scientific_f64(12.345, 2), 2);
    assert_eq!(text(&mut w, job), (" 1.23e001".to_string(), 9));
}

#[test]
fn scientific_slice_one_place() {
    let mut w = Writer::new();
    let values: Vec<Scientific> =
        [1.23f32, -2.34, 3.45].iter().map(|v| scientific_f32(*v, 1)).collect();
    let job = w.write_f32_slice_exp(&values, 1);
    assert_eq!(text(&mut w, job), ("[  1.2e000, -2.3e000,  3.4e000, ]".to_string(), 33));
    let job = w.writeln_f32_slice_exp(&values, 1);
    assert_eq!(text(&mut w, job), ("[  1.2e000, -2.3e000,  3.4e000, ]\r\n".to_string(), 35));
}

#[test]
fn fixed_slices() {
    let mut w = Writer::new();
    let values: Vec<Fixed> = [1.0f32, 23.45, 678.901].iter().map(|v| fixed_f32(*v, 2)).collect();
    let job = w.write_f32_slice(&values, 2);
    assert_eq!(text(&mut w, job).0, "[ 1.00, 23.45, 678.90, ]");
    let job = w.writeln_f32_slice(&values, 2);
    assert_eq!(text(&mut w, job).0, "[ 1.00, 23.45, 678.90, ]\r\n");
    let values: Vec<Fixed> = [1.0f64, -23.5, 678.75].iter().map(|v| fixed_f64(*v, 2)).collect();
    let job = w.write_f64_slice(&values, 2);
    assert_eq!(text(&mut w, job).0, "[ 1.00, -23.50, 678.75, ]");
    let job = w.writeln_f64_slice(&values, 2);
    assert_eq!(text(&mut w, job).0, "[ 1.00, -23.50, 678.75, ]\r\n");
}

#[test]
fn scientific_slices() {
    let mut w = Writer::new();
    let values: Vec<Scientific> =
        [1.0f32, 23.45, 678.901].iter().map(|v| scientific_f32(*v, 2)).collect();
    let job = w.write_f32_slice_exp(&values, 2);
    assert_eq!(text(&mut w, job).0, "[  1.00e000,  2.34e001,  6.78e002, ]");
    let values: Vec<Scientific> =
        [1.0f64, -23.5, 0.0078125].iter().map(|v| scientific_f64(*v, 2)).collect();
    let job = w.write_f64_slice_exp(&values, 2);
    assert_eq!(text(&mut w, job).0, "[  1.00e000, -2.35e001,  7.81e-03, ]");
    let job = w.writeln_f64_slice_exp(&values, 2);
    assert_eq!(text(&mut w, job).0, "[  1.00e000, -2.35e001,  7.81e-03, ]\r\n");
    let none: [Scientific; 0] = [];
    let job = w.write_f64_slice_exp(&none, 2);
    assert_eq!(text(&mut w, job).0, "[ ]");
}

#[test]
fn largest_f32_in_fixed_form() {
    let mut w = Writer::new();
    let parts = fixed_f32(f32::MAX, 1);
    assert_eq!(parts.blocks, 1);
    assert_eq!(parts.shifts, 1);
    let job = w.write_f32(parts, 1);
    let (s, n) = text(&mut w, job);
    assert_eq!(s, "340282356122255360000000000000000000000.0");
    assert_eq!(n, 41);
    let job = w.write_f32(fixed_f32(f32::MIN, 1), 1);
    assert_eq!(text(&mut w, job).0, "-340282356122255360000000000000000000000.0");
}

#[test]
fn largest_f64_in_fixed_form() {
    let mut w = Writer::new();
    let parts = fixed_f64(f64::MAX, 1);
    assert_eq!(parts.blocks, 15);
    assert_eq!(parts.shifts, 5);
    let job = w.write_f64(parts, 1);
    let (s, n) = text(&mut w, job);
    let mut expected = "1797693134862315776".to_string();
    expected.push_str(&"0".repeat(15 * 19 + 5));
    expected.push_str(".0");
    assert_eq!(s, expected);
    assert_eq!(n, 19 + 290 + 2);
    let job = w.write_f64(fixed_f64(f64::MIN, 0), 0);
    let (s, _) = text(&mut w, job);
    assert_eq!(s.len(), 310);
    assert!(s.starts_with("-1797693134862315776000"));
}

#[test]
fn largest_values_in_scientific_form() {
    let mut w = Writer::new();
    let job = w.write_f32_exp(scientific_f32(f32::MAX, 7), 7);
    assert_eq!(text(&mut w, job).0, " 3.4028236e038");
    let job = w.write_f32_exp(scientific_f32(f32::MIN, 7), 7);
    assert_eq!(text(&mut w, job).0, "-3.4028236e038");
    let job = w.write_f64_exp(scientific_f64(f64::MAX, 16), 16);
    assert_eq!(text(&mut w, job).0, " 1.797693134862316e308");
    let job = w.write_f64_exp(scientific_f64(f64::MIN, 16), 16);
    assert_eq!(text(&mut w, job).0, "-1.797693134862316e308");
}

#[test]
fn smallest_steps_in_fixed_form() {
    let mut w = Writer::new();
    let expected = ["0.0", "0.00", "0.000", "0.0000", "0.00000", "0.000000", "0.0000001"];
    for (i, s) in expected.iter().enumerate() {
        let job = w.write_f32(fixed_f32(f32::EPSILON, i + 1), i + 1);
        assert_eq!(text(&mut w, job).0, *s);
    }
    let job = w.write_f64(fixed_f64(f64::EPSILON, 15), 15);
    assert_eq!(text(&mut w, job).0, "0.000000000000000");
}

#[test]
fn smallest_steps_in_scientific_form() {
    let mut w = Writer::new();
    let expected = [
        " 1.1e-07",
        " 1.19e-07",
        " 1.192e-07",
        " 1.1920e-07",
        " 1.19209e-07",
        " 1.192092e-07",
        " 1.1920929e-07",
    ];
    for (i, s) in expected.iter().enumerate() {
        let job = w.write_f32_exp(scientific_f32(f32::EPSILON, i + 1), i + 1);
        assert_eq!(text(&mut w, job).0, *s);
    }
    let job = w.write_f64_exp(scientific_f64(f64::EPSILON, 1), 1);
    assert_eq!(text(&mut w, job).0, " 2.2e-16");
    let job = w.write_f64_exp(scientific_f64(f64::EPSILON, 15), 15);
    assert_eq!(text(&mut w, job).0, " 2.220446049250313e-16");
}

#[test]
fn more_places_than_the_width_has() {
    let mut w = Writer::new();
    let parts = plain(1234, 5000000);
    let job = w.write_f32(parts, 7);
    let at_limit = text(&mut w, job);
    assert_eq!(at_limit, ("1234.5000000".to_string(), 12));
    for nodp in [8, 9, 15, 16, 100, usize::MAX] {
        let job = w.write_f32(parts, nodp);
        assert_eq!(text(&mut w, job), at_limit);
    }
    let parts = plain(123, 456000000000003);
    let job = w.write_f64(parts, 15);
    let at_limit = text(&mut w, job);
    assert_eq!(at_limit, ("123.456000000000003".to_string(), 19));
    for nodp in [16, 20, usize::MAX] {
        let job = w.write_f64(parts, nodp);
        assert_eq!(text(&mut w, job), at_limit);
    }
    assert_eq!(fixed_f32(1234.5, 9), fixed_f32(1234.5, 7));
    assert_eq!(fixed_f64(123.456, 20), fixed_f64(123.456, 15));
    let sci = Scientific { negative: false, mantissa: plain(1, 2345678), exponent: 3 };
    let job = w.write_f32_exp(sci, 7);
    let at_limit = text(&mut w, job);
    assert_eq!(at_limit.0, " 1.2345678e003");
    let job = w.write_f32_exp(sci, 12);
    assert_eq!(text(&mut w, job), at_limit);
    let job = w.write_f64_exp(sci, 12);
    assert_eq!(text(&mut w, job).0, " 1.000002345678e003");
}

#[test]
fn places_are_clamped_per_width() {
    assert_eq!(Width::Single.places(0), 0);
    assert_eq!(Width::Single.places(7), 7);
    assert_eq!(Width::Single.places(8), 7);
    assert_eq!(Width::Double.places(8), 8);
    assert_eq!(Width::Double.places(15), 15);
    assert_eq!(Width::Double.places(16), 15);
    assert_eq!(Width::Double.places(usize::MAX), 15);
}

#[test]
fn powers_of_ten() {
    assert_eq!(F32_EXP.len(), 8);
    assert_eq!(F64_EXP.len(), 16);
    for k in 0..8 {
        assert_eq!(Width::Single.power(k), Some(10u64.pow(k as u32)));
        assert_eq!(F32_EXP[k], 10u64.pow(k as u32));
    }
    for k in 0..16 {
        assert_eq!(Width::Double.power(k), Some(10u64.pow(k as u32)));
        assert_eq!(F64_EXP[k], 10u64.pow(k as u32));
    }
    assert_eq!(Width::Single.power(8), None);
    assert_eq!(Width::Double.power(16), None);
    assert_eq!(U64_BASE, 10u64.pow(19));
}

#[test]
fn no_point_without_places() {
    let mut w = Writer::new();
    let job = w.write_f32(plain(12, 99), 0);
    assert_eq!(text(&mut w, job), ("12".to_string(), 2));
    let job = w.write_f64(Fixed { negative: true, whole: 0, blocks: 0, shifts: 0, fraction: 0 }, 0);
    assert_eq!(text(&mut w, job), ("-0".to_string(), 2));
    let job = w.write_f64_exp(Scientific { negative: true, mantissa: plain(5, 0), exponent: -1 }, 0);
    assert_eq!(text(&mut w, job), ("-5e-01".to_string(), 6));
}

#[test]
fn the_fraction_is_padded_on_the_left() {
    let mut w = Writer::new();
    let job = w.write_f32(plain(0, 50), 3);
    assert_eq!(text(&mut w, job).0, "0.050");
    let job = w.write_f32(plain(0, 0), 3);
    assert_eq!(text(&mut w, job).0, "0.000");
    let job = w.write_f32(plain(0, 1), 7);
    assert_eq!(text(&mut w, job).0, "0.0000001");
    let job = w.write_f64(plain(7, 1), 15);
    assert_eq!(text(&mut w, job).0, "7.000000000000001");
    let job = w.write_f64(plain(7, 999), 3);
    assert_eq!(text(&mut w, job).0, "7.999");
    let job = w.write_f64(plain(7, 9), 1);
    assert_eq!(text(&mut w, job).0, "7.9");
    let job = w.write_f64(plain(7, 0), 1);
    assert_eq!(text(&mut w, job).0, "7.0");
}

#[test]
fn fixed_pieces_in_order() {
    let mut w = Writer::new();
    let parts = Fixed { negative: true, whole: 34, blocks: 2, shifts: 3, fraction: 7 };
    let job = w.write_f64(parts, 3);
    assert_eq!(
        pieces(&mut w, job),
        vec![
            "-".to_string(),
            "34".to_string(),
            "0000000000000000000".to_string(),
            "0000000000000000000".to_string(),
            "0".to_string(),
            "0".to_string(),
            "0".to_string(),
            ".".to_string(),
            "0".to_string(),
            "0".to_string(),
            "7".to_string(),
        ]
    );
    let job = w.writeln_f64(parts, 0);
    assert_eq!(
        pieces(&mut w, job),
        vec![
            "-".to_string(),
            "34".to_string(),
            "0000000000000000000".to_string(),
            "0000000000000000000".to_string(),
            "0".to_string(),
            "0".to_string(),
            "0".to_string(),
            "\r\n".to_string(),
        ]
    );
}

#[test]
fn scientific_pieces_in_order() {
    let mut w = Writer::new();
    let value = Scientific { negative: false, mantissa: plain(1, 5), exponent: 7 };
    let job = w.write_f32_exp(value, 2);
    assert_eq!(
        pieces(&mut w, job),
        vec![
            " ".to_string(),
            "1".to_string(),
            ".".to_string(),
            "0".to_string(),
            "5".to_string(),
            "e".to_string(),
            "0".to_string(),
            "0".to_string(),
            "7".to_string(),
        ]
    );
    let value = Scientific { negative: true, mantissa: plain(9, 99), exponent: -7 };
    let job = w.writeln_f32_exp(value, 2);
    assert_eq!(
        pieces(&mut w, job),
        vec![
            "-".to_string(),
            "9".to_string(),
            ".".to_string(),
            "99".to_string(),
            "e".to_string(),
            "-".to_string(),
            "0".to_string(),
            "7".to_string(),
            "\r\n".to_string(),
        ]
    );
}

#[test]
fn exponents_are_padded() {
    let mut w = Writer::new();
    let cases: [(i16, &str); 10] = [
        (0, " 1e000"),
        (9, " 1e009"),
        (10, " 1e010"),
        (99, " 1e099"),
        (100, " 1e100"),
        (308, " 1e308"),
        (-1, " 1e-01"),
        (-9, " 1e-09"),
        (-10, " 1e-10"),
        (-324, " 1e-324"),
    ];
    for (exponent, expected) in cases {
        let value = Scientific { negative: false, mantissa: plain(1, 0), exponent };
        let job = w.write_f64_exp(value, 0);
        assert_eq!(text(&mut w, job).0, expected);
    }
}

#[test]
fn lines_of_floats() {
    let mut w = Writer::new();
    let job = w.writeln_f32(fixed_f32(12.345, 2), 2);
    assert_eq!(text(&mut w, job), ("12.34\r\n".to_string(), 7));
    let job = w.writeln_f64(fixed_f64(-0.5, 3), 3);
    assert_eq!(text(&mut w, job), ("-0.500\r\n".to_string(), 8));
    let job = w.writeln_f32_exp(scientific_f32(12.345, 2), 2);
    assert_eq!(text(&mut w, job), (" 1.23e001\r\n".to_string(), 11));
    let job = w.writeln_f64_exp(scientific_f64(-0.00012345, 4), 4);
    assert_eq!(text(&mut w, job), ("-1.2344e-04".to_string() + "\r\n", 13));
}

#[test]
fn magnitudes_beyond_64_bits() {
    let mut w = Writer::new();
    let job = w.write_f64(fixed_f64(1e19, 2), 2);
    assert_eq!(text(&mut w, job).0, "10000000000000000000.00");
    let parts = fixed_f64(2.5e20, 2);
    assert_eq!(parts, Fixed { negative: false, whole: 2500000000000000000, blocks: 0, shifts: 2, fraction: 0 });
    let job = w.write_f64(parts, 2);
    assert_eq!(text(&mut w, job).0, "250000000000000000000.00");
    let job = w.write_f64(plain(u64::MAX, 0), 1);
    assert_eq!(text(&mut w, job).0, "18446744073709551615.0");
}
