use datagenerator::{
    Action, AppError, Fetch, Generator, HexError, InputData, InputDataType, FLUSH_THRESHOLD,
};

/// Runs to the end and gives the chunks in the order in which they came.
fn run(source: &mut InputData, delimiter: &[u8], count: u64) -> Result<Vec<Vec<u8>>, AppError> {
    let mut generator = Generator::new(delimiter.to_vec(), count);
    let mut writes: Vec<Vec<u8>> = Vec::new();
    loop {
        match generator.step(source)? {
            Action::Write(chunk) => writes.push(chunk),
            Action::Read(fetch) => panic!("a read is asked for: {:?}", fetch),
            Action::Done => break,
        }
    }
    assert!(generator.is_finished());
    Ok(writes)
}

fn text(unit: &str) -> InputData {
    InputData::new(InputDataType::U8String(unit.to_string()), false)
}

#[test]
fn threshold_is_4096() {
    assert_eq!(FLUSH_THRESHOLD, 4096);
}

#[test]
fn units_are_joined_by_the_delimiter() {
    let writes = run(&mut text("ab"), b",", 3).unwrap();
    assert_eq!(writes, vec![b"ab,ab,ab".to_vec()]);
}

#[test]
fn one_unit_has_no_delimiter() {
    let writes = run(&mut text("ab"), b",", 1).unwrap();
    assert_eq!(writes, vec![b"ab".to_vec()]);
}

#[test]
fn empty_delimiter_repeats_the_unit() {
    let writes = run(&mut text("xyz"), b"", 4).unwrap();
    assert_eq!(writes, vec![b"xyzxyzxyzxyz".to_vec()]);
}

#[test]
fn delimiter_of_several_bytes() {
    let mut source = InputData::new(InputDataType::Hex("00ff".to_string()), false);
    let writes = run(&mut source, &[13, 10], 3).unwrap();
    assert_eq!(writes, vec![vec![0, 255, 13, 10, 0, 255, 13, 10, 0, 255]]);
}

#[test]
fn count_of_zero_writes_nothing() {
    let mut source = text("ab");
    let writes = run(&mut source, b",", 0).unwrap();
    assert!(writes.is_empty());
    assert!(source.cached().is_none());
}

#[test]
fn count_of_zero_asks_for_no_read() {
    let mut source = InputData::new(InputDataType::File("never/read".to_string()), false);
    let mut generator = Generator::new(Vec::new(), 0);
    assert!(generator.is_finished());
    assert_eq!(generator.step(&mut source).unwrap(), Action::Done);
    assert_eq!(generator.step(&mut source).unwrap(), Action::Done);
}

#[test]
fn count_of_zero_does_not_reach_a_failing_source() {
    let mut source = InputData::new(InputDataType::Unresolved, false);
    assert!(run(&mut source, b"", 0).unwrap().is_empty());
}

#[test]
fn empty_units_give_only_delimiters() {
    let writes = run(&mut text(""), b"-", 4).unwrap();
    assert_eq!(writes, vec![b"---".to_vec()]);
}

#[test]
fn nothing_to_write_is_no_write() {
    let writes = run(&mut text(""), b"", 5).unwrap();
    assert!(writes.is_empty());
}

#[test]
fn large_output_goes_out_in_several_writes() {
    let writes = run(&mut text("x"), b"", 5000).unwrap();
    assert_eq!(writes.len(), 2);
    assert_eq!(writes[0].len(), 4096);
    assert_eq!(writes[1].len(), 904);
    assert_eq!(writes.concat(), vec![b'x'; 5000]);
}

#[test]
fn output_of_exactly_the_threshold_is_one_write() {
    let writes = run(&mut text("x"), b"", 4096).unwrap();
    assert_eq!(writes.len(), 1);
    assert_eq!(writes[0], vec![b'x'; 4096]);
}

#[test]
fn output_below_the_threshold_is_one_write() {
    let writes = run(&mut text("x"), b"", 4095).unwrap();
    assert_eq!(writes.len(), 1);
    assert_eq!(writes[0].len(), 4095);
}

#[test]
fn chunks_end_where_the_buffer_reached_the_threshold() {
    // Every unit but the last appends four bytes.
    let writes = run(&mut text("ab"), b"--", 2000).unwrap();
    let mut expected: Vec<u8> = Vec::new();
    for i in 0..2000 {
        expected.extend_from_slice(b"ab");
        if i + 1 < 2000 {
            expected.extend_from_slice(b"--");
        }
    }
    assert_eq!(expected.len(), 7998);
    assert_eq!(writes.len(), 2);
    assert_eq!(writes[0].len(), 4096);
    assert_eq!(writes[1].len(), 3902);
    assert_eq!(writes.concat(), expected);
}

#[test]
fn chunk_may_exceed_the_threshold_by_less_than_one_unit() {
    // Seven bytes a unit: 585 units are 4095 bytes, the next one crosses.
    let writes = run(&mut text("abcdefg"), b"", 1000).unwrap();
    assert_eq!(writes.len(), 2);
    assert_eq!(writes[0].len(), 4102);
    assert_eq!(writes[1].len(), 7000 - 4102);
    assert_eq!(writes.concat(), b"abcdefg".repeat(1000));
}

#[test]
fn one_long_unit_is_one_write() {
    let unit = "u".repeat(5000);
    let writes = run(&mut text(&unit), b"", 1).unwrap();
    assert_eq!(writes.len(), 1);
    assert_eq!(writes[0].len(), 5000);
}

#[test]
fn long_units_are_written_one_by_one() {
    let unit = "u".repeat(5000);
    let writes = run(&mut text(&unit), b"|", 3).unwrap();
    assert_eq!(writes.len(), 3);
    assert_eq!(writes[0].len(), 5001);
    assert_eq!(writes[1].len(), 5001);
    assert_eq!(writes[2].len(), 5000);
    assert_eq!(writes[0][5000], b'|');
}

#[test]
fn every_step_hands_out_one_chunk() {
    let mut source = text("x");
    let mut generator = Generator::new(Vec::new(), 10000);
    let first = generator.step(&mut source).unwrap();
    assert_eq!(first, Action::Write(vec![b'x'; 4096]));
    assert!(!generator.is_finished());
    let second = generator.step(&mut source).unwrap();
    assert_eq!(second, Action::Write(vec![b'x'; 4096]));
    let third = generator.step(&mut source).unwrap();
    assert_eq!(third, Action::Write(vec![b'x'; 10000 - 8192]));
    assert!(generator.is_finished());
    assert_eq!(generator.step(&mut source).unwrap(), Action::Done);
    assert_eq!(generator.step(&mut source).unwrap(), Action::Done);
}

#[test]
fn failing_source_ends_the_run() {
    let mut source = InputData::new(InputDataType::Hex("zz".to_string()), false);
    let mut generator = Generator::new(b",".to_vec(), 3);
    match generator.step(&mut source) {
        Err(AppError::HexParse(e)) => {
            assert_eq!(e, HexError::InvalidHexCharacter { c: 'z', index: 0 })
        }
        other => panic!("no hexadecimal error: {:?}", other),
    }
    assert!(!generator.is_finished());
}

#[test]
fn unresolved_source_ends_the_run() {
    let mut source = InputData::new(InputDataType::Unresolved, false);
    assert!(matches!(run(&mut source, b"", 1), Err(AppError::UnknownInputError)));
}

#[test]
fn file_source_asks_for_its_read_first() {
    let mut source = InputData::new(InputDataType::File("data.bin".to_string()), false);
    let mut generator = Generator::new(b"/".to_vec(), 2);
    assert_eq!(
        generator.step(&mut source).unwrap(),
        Action::Read(Fetch::File("data.bin".to_string()))
    );
    // Nothing happens until the read is supplied.
    assert_eq!(
        generator.step(&mut source).unwrap(),
        Action::Read(Fetch::File("data.bin".to_string()))
    );
    source.supply(Ok(vec![1, 2])).unwrap();
    assert_eq!(generator.step(&mut source).unwrap(), Action::Write(vec![1, 2, b'/', 1, 2]));
    assert_eq!(generator.step(&mut source).unwrap(), Action::Done);
}

#[test]
fn stdin_source_asks_for_its_read_first() {
    let mut source = InputData::new(InputDataType::Sin(10), false);
    let mut generator = Generator::new(Vec::new(), 3);
    assert_eq!(generator.step(&mut source).unwrap(), Action::Read(Fetch::Stdin(10)));
    source.supply(Ok(b"abc".to_vec())).unwrap();
    assert_eq!(generator.step(&mut source).unwrap(), Action::Write(b"abcabcabc".to_vec()));
    assert_eq!(generator.step(&mut source).unwrap(), Action::Done);
}

#[test]
fn random_source_gives_one_byte_for_each_unit() {
    let mut source = InputData::new(InputDataType::Unresolved, true);
    let writes = run(&mut source, b"", 10).unwrap();
    assert_eq!(writes.len(), 1);
    assert_eq!(writes[0].len(), 10);
}

#[test]
fn random_units_are_delimited() {
    let mut source = InputData::new(InputDataType::Unresolved, true);
    let writes = run(&mut source, &[0, 0], 5).unwrap();
    assert_eq!(writes.len(), 1);
    assert_eq!(writes[0].len(), 13);
    for i in 0..4 {
        assert_eq!(&writes[0][3 * i + 1..3 * i + 3], &[0, 0]);
    }
}

#[test]
fn large_random_output_goes_out_in_several_writes() {
    let mut source = InputData::new(InputDataType::Unresolved, true);
    let writes = run(&mut source, b"", 10000).unwrap();
    assert_eq!(writes.len(), 3);
    assert_eq!(writes[0].len(), 4096);
    assert_eq!(writes[1].len(), 4096);
    assert_eq!(writes[2].len(), 10000 - 8192);
    assert_ne!(writes[0], writes[1]);
}
