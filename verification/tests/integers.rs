use serial_write::{Job, Step, Writer};

fn run<E>(
    writer: &mut Writer,
    mut job: Job<'_>,
    mut sink: impl FnMut(&[u8]) -> Result<usize, E>,
) -> Result<usize, (E, usize)> {
    let mut answer = None;
    loop {
        match job.step(writer, answer) {
            Step::Write(bytes) => answer = Some(sink(bytes)),
            Step::Done(result) => return result,
        }
    }
}

fn text(writer: &mut Writer, job: Job<'_>) -> (String, usize) {
    let mut out = Vec::new();
    let result: Result<usize, ((), usize)> = run(writer, job, |bytes| {
        out.extend_from_slice(bytes);
        Ok(bytes.len())
    });
    (String::from_utf8(out).unwrap(), result.unwrap())
}

fn pieces(writer: &mut Writer, job: Job<'_>) -> Vec<String> {
    let mut out = Vec::new();
    let result: Result<usize, ((), usize)> = run(writer, job, |bytes| {
        out.push(String::from_utf8(bytes.to_vec()).unwrap());
        Ok(bytes.len())
    });
    result.unwrap();
    out
}

#[test]
fn zero_is_a_single_digit_without_sign() {
    let mut w = Writer::new();
    let job = w.write_i32(0);
    assert_eq!(text(&mut w, job), ("0".to_string(), 1));
    let job = w.write_u64(0);
    assert_eq!(text(&mut w, job), ("0".to_string(), 1));
    let job = w.write_i8(0);
    assert_eq!(text(&mut w, job), ("0".to_string(), 1));
}

#[test]
fn i8_bounds() {
    let mut w = Writer::new();
    let job = w.write_i8(i8::MAX);
    assert_eq!(text(&mut w, job), ("127".to_string(), 3));
    let job = w.write_i8(i8::MIN);
    assert_eq!(text(&mut w, job), ("-128".to_string(), 4));
}

#[test]
fn i16_bounds() {
    let mut w = Writer::new();
    let job = w.write_i16(i16::MAX);
    assert_eq!(text(&mut w, job), ("32767".to_string(), 5));
    let job = w.write_i16(i16::MIN);
    assert_eq!(text(&mut w, job), ("-32768".to_string(), 6));
}

#[test]
fn i32_bounds() {
    let mut w = Writer::new();
    let job = w.write_i32(i32::MAX);
    assert_eq!(text(&mut w, job), ("2147483647".to_string(), 10));
    let job = w.write_i32(i32::MIN);
    assert_eq!(text(&mut w, job), ("-2147483648".to_string(), 11));
}

#[test]
fn i64_bounds() {
    let mut w = Writer::new();
    let job = w.write_i64(i64::MAX);
    assert_eq!(text(&mut w, job), ("9223372036854775807".to_string(), 19));
    let job = w.write_i64(i64::MIN);
    assert_eq!(text(&mut w, job), ("-9223372036854775808".to_string(), 20));
}

#[test]
fn isize_bounds() {
    let mut w = Writer::new();
    let job = w.write_isize(isize::MAX);
    assert_eq!(text(&mut w, job).0, format!("{}", isize::MAX));
    let job = w.write_isize(isize::MIN);
    assert_eq!(text(&mut w, job).0, format!("{}", isize::MIN));
}

#[test]
fn u8_bounds() {
    let mut w = Writer::new();
    let job = w.write_u8(u8::MAX);
    assert_eq!(text(&mut w, job), ("255".to_string(), 3));
    let job = w.write_u8(u8::MIN);
    assert_eq!(text(&mut w, job), ("0".to_string(), 1));
}

#[test]
fn u16_bounds() {
    let mut w = Writer::new();
    let job = w.write_u16(u16::MAX);
    assert_eq!(text(&mut w, job), ("65535".to_string(), 5));
    let job = w.write_u16(u16::MIN);
    assert_eq!(text(&mut w, job), ("0".to_string(), 1));
}

#[test]
fn u32_bounds() {
    let mut w = Writer::new();
    let job = w.write_u32(u32::MAX);
    assert_eq!(text(&mut w, job), ("4294967295".to_string(), 10));
    let job = w.write_u32(u32::MIN);
    assert_eq!(text(&mut w, job), ("0".to_string(), 1));
}

#[test]
fn u64_bounds() {
    let mut w = Writer::new();
    let job = w.write_u64(u64::MAX);
    assert_eq!(text(&mut w, job), ("18446744073709551615".to_string(), 20));
    let job = w.write_u64(u64::MIN);
    assert_eq!(text(&mut w, job), ("0".to_string(), 1));
}

#[test]
fn usize_bounds() {
    let mut w = Writer::new();
    let job = w.write_usize(usize::MAX);
    assert_eq!(text(&mut w, job).0, format!("{}", usize::MAX));
    let job = w.write_usize(usize::MIN);
    assert_eq!(text(&mut w, job), ("0".to_string(), 1));
}

#[test]
fn signed_text_parses_back() {
    let mut w = Writer::new();
    let values: [i64; 13] = [
        0,
        1,
        -1,
        9,
        10,
        -10,
        99,
        100,
        9999,
        10000,
        -12345678,
        i64::MAX,
        i64::MIN,
    ];
    for x in values {
        let job = w.write_i64(x);
        let (s, n) = text(&mut w, job);
        assert_eq!(s.parse::<i64>().unwrap(), x);
        assert_eq!(n, s.len());
        assert_eq!(s.matches('-').count(), if x < 0 { 1 } else { 0 });
        assert_eq!(s.starts_with('-'), x < 0);
        let digits = s.trim_start_matches('-');
        assert!(digits.bytes().all(|b| b.is_ascii_digit()));
        assert!(x == 0 || !digits.starts_with('0'));
    }
}

#[test]
fn every_i8_parses_back() {
    let mut w = Writer::new();
    for x in i8::MIN..=i8::MAX {
        let job = w.write_i8(x);
        let (s, _) = text(&mut w, job);
        assert_eq!(s.parse::<i8>().unwrap(), x);
        assert_eq!(s, format!("{}", x));
    }
}

#[test]
fn every_u8_parses_back() {
    let mut w = Writer::new();
    for x in u8::MIN..=u8::MAX {
        let job = w.write_u8(x);
        let (s, _) = text(&mut w, job);
        assert_eq!(s.parse::<u8>().unwrap(), x);
    }
}

#[test]
fn unsigned_text_parses_back() {
    let mut w = Writer::new();
    let values: [u64; 9] =
        [0, 7, 10, 1000, 9999, 10000, 10001, 1234567890123456789, u64::MAX];
    for x in values {
        let job = w.write_u64(x);
        let (s, n) = text(&mut w, job);
        assert_eq!(s.parse::<u64>().unwrap(), x);
        assert_eq!(n, s.len());
        assert!(x == 0 || !s.starts_with('0'));
    }
    let job = w.write_u16(40000);
    assert_eq!(text(&mut w, job).0, "40000");
    let job = w.write_u32(3000000000);
    assert_eq!(text(&mut w, job).0, "3000000000");
    let job = w.write_i16(-300);
    assert_eq!(text(&mut w, job).0, "-300");
    let job = w.write_i32(-70000);
    assert_eq!(text(&mut w, job).0, "-70000");
}

#[test]
fn an_integer_is_one_piece() {
    let mut w = Writer::new();
    let job = w.write_i32(-6235);
    assert_eq!(pieces(&mut w, job), vec!["-6235".to_string()]);
    let job = w.writeln_u32(162392);
    assert_eq!(pieces(&mut w, job), vec!["162392".to_string(), "\r\n".to_string()]);
}

#[test]
fn usize_slice() {
    let mut w = Writer::new();
    let values: [usize; 4] = [1, 23, 456, 7890];
    let job = w.write_usize_slice(&values);
    assert_eq!(text(&mut w, job), ("[ 1, 23, 456, 7890, ]".to_string(), 21));
}

#[test]
fn slice_pieces_in_order() {
    let mut w = Writer::new();
    let values: [i16; 2] = [-5, 60];
    let job = w.write_i16_slice(&values);
    assert_eq!(
        pieces(&mut w, job),
        vec![
            "[ ".to_string(),
            "-5".to_string(),
            ", ".to_string(),
            "60".to_string(),
            ", ".to_string(),
            "]".to_string(),
        ]
    );
}

#[test]
fn empty_slice_is_brackets_only() {
    let mut w = Writer::new();
    let values: [u8; 0] = [];
    let job = w.write_u8_slice(&values);
    assert_eq!(text(&mut w, job), ("[ ]".to_string(), 3));
    let job = w.writeln_u8_slice(&values);
    assert_eq!(text(&mut w, job), ("[ ]\r\n".to_string(), 5));
}

#[test]
fn slices_of_every_width() {
    let mut w = Writer::new();
    let a: [i8; 2] = [i8::MIN, i8::MAX];
    let job = w.write_i8_slice(&a);
    assert_eq!(text(&mut w, job).0, "[ -128, 127, ]");
    let a: [i16; 2] = [i16::MIN, i16::MAX];
    let job = w.write_i16_slice(&a);
    assert_eq!(text(&mut w, job).0, "[ -32768, 32767, ]");
    let a: [i32; 2] = [i32::MIN, i32::MAX];
    let job = w.write_i32_slice(&a);
    assert_eq!(text(&mut w, job).0, "[ -2147483648, 2147483647, ]");
    let a: [i64; 2] = [i64::MIN, i64::MAX];
    let job = w.write_i64_slice(&a);
    assert_eq!(text(&mut w, job).0, "[ -9223372036854775808, 9223372036854775807, ]");
    let a: [isize; 2] = [-1, 1];
    let job = w.write_isize_slice(&a);
    assert_eq!(text(&mut w, job).0, "[ -1, 1, ]");
    let a: [u8; 2] = [0, u8::MAX];
    let job = w.write_u8_slice(&a);
    assert_eq!(text(&mut w, job).0, "[ 0, 255, ]");
    let a: [u16; 2] = [0, u16::MAX];
    let job = w.write_u16_slice(&a);
    assert_eq!(text(&mut w, job).0, "[ 0, 65535, ]");
    let a: [u32; 2] = [0, u32::MAX];
    let job = w.write_u32_slice(&a);
    assert_eq!(text(&mut w, job).0, "[ 0, 4294967295, ]");
    let a: [u64; 2] = [0, u64::MAX];
    let job = w.write_u64_slice(&a);
    assert_eq!(text(&mut w, job).0, "[ 0, 18446744073709551615, ]");
    let a: [usize; 2] = [0, 5];
    let job = w.write_usize_slice(&a);
    assert_eq!(text(&mut w, job).0, "[ 0, 5, ]");
}

#[test]
fn lines_of_every_width() {
    let mut w = Writer::new();
    let job = w.writeln_i8(-8);
    assert_eq!(text(&mut w, job), ("-8\r\n".to_string(), 4));
    let job = w.writeln_i16(-16);
    assert_eq!(text(&mut w, job).0, "-16\r\n");
    let job = w.writeln_i32(-32);
    assert_eq!(text(&mut w, job).0, "-32\r\n");
    let job = w.writeln_i64(-64);
    assert_eq!(text(&mut w, job).0, "-64\r\n");
    let job = w.writeln_isize(-7);
    assert_eq!(text(&mut w, job).0, "-7\r\n");
    let job = w.writeln_u8(8);
    assert_eq!(text(&mut w, job).0, "8\r\n");
    let job = w.writeln_u16(16);
    assert_eq!(text(&mut w, job).0, "16\r\n");
    let job = w.writeln_u32(32);
    assert_eq!(text(&mut w, job).0, "32\r\n");
    let job = w.writeln_u64(64);
    assert_eq!(text(&mut w, job).0, "64\r\n");
    let job = w.writeln_usize(7);
    assert_eq!(text(&mut w, job).0, "7\r\n");
}

#[test]
fn slice_lines_of_every_width() {
    let mut w = Writer::new();
    let a: [i8; 1] = [-8];
    let job = w.writeln_i8_slice(&a);
    assert_eq!(text(&mut w, job).0, "[ -8, ]\r\n");
    let a: [i16; 1] = [-16];
    let job = w.writeln_i16_slice(&a);
    assert_eq!(text(&mut w, job).0, "[ -16, ]\r\n");
    let a: [i32; 1] = [-32];
    let job = w.writeln_i32_slice(&a);
    assert_eq!(text(&mut w, job).0, "[ -32, ]\r\n");
    let a: [i64; 1] = [-64];
    let job = w.writeln_i64_slice(&a);
    assert_eq!(text(&mut w, job).0, "[ -64, ]\r\n");
    let a: [isize; 1] = [-7];
    let job = w.writeln_isize_slice(&a);
    assert_eq!(text(&mut w, job).0, "[ -7, ]\r\n");
    let a: [u8; 1] = [8];
    let job = w.writeln_u8_slice(&a);
    assert_eq!(text(&mut w, job).0, "[ 8, ]\r\n");
    let a: [u16; 1] = [16];
    let job = w.writeln_u16_slice(&a);
    assert_eq!(text(&mut w, job).0, "[ 16, ]\r\n");
    let a: [u32; 1] = [32];
    let job = w.writeln_u32_slice(&a);
    assert_eq!(text(&mut w, job).0, "[ 32, ]\r\n");
    let a: [u64; 1] = [64];
    let job = w.writeln_u64_slice(&a);
    assert_eq!(text(&mut w, job).0, "[ 64, ]\r\n");
    let a: [usize; 3] = [1, 2, 3];
    let job = w.writeln_usize_slice(&a);
    assert_eq!(text(&mut w, job), ("[ 1, 2, 3, ]\r\n".to_string(), 14));
}

#[test]
fn strings() {
    let mut w = Writer::new();
    let job = w.write_str("Hello, world!");
    assert_eq!(text(&mut w, job), ("Hello, world!".to_string(), 13));
    let job = w.writeln_str("Hello, world!");
    assert_eq!(text(&mut w, job), ("Hello, world!\r\n".to_string(), 15));
    let job = w.writeln_str("Hello, world!");
    assert_eq!(pieces(&mut w, job), vec!["Hello, world!".to_string(), "\r\n".to_string()]);
}

#[test]
fn an_empty_string_is_still_one_write() {
    let mut w = Writer::new();
    let job = w.write_str("");
    assert_eq!(pieces(&mut w, job), vec!["".to_string()]);
    let job = w.write_str("é");
    assert_eq!(text(&mut w, job), ("é".to_string(), 2));
}

#[test]
fn a_new_job_has_written_nothing() {
    let w = Writer::new();
    assert_eq!(w.write_u8(5).count(), 0);
    assert_eq!(w.writeln_str("abc").count(), 0);
    let a: [u32; 2] = [1, 2];
    assert_eq!(w.write_u32_slice(&a).count(), 0);
}

#[test]
fn the_writer_is_reused() {
    let mut w = Writer::new();
    let job = w.write_u64(u64::MAX);
    assert_eq!(text(&mut w, job).0, "18446744073709551615");
    let job = w.write_u8(3);
    assert_eq!(text(&mut w, job).0, "3");
    let job = w.write_i64(-45);
    assert_eq!(text(&mut w, job).0, "-45");
}
