use rust_crc_project::{
    calculate_crc, compute_batch_crcs_optimized, parallel_eligible, parse_hex_input,
    parse_iterations, partition_iterations, run_batch, validate_frame, CrcResult, ParseError,
    RunError, ValidationError,
};

#[test]
fn checksum_is_independent_of_iteration_count() {
    let frame = [0x01, 0x03, 0x00, 0x01, 0x00, 0x02];
    let a = run_batch(&frame, 1, false).unwrap();
    let b = run_batch(&frame, 7, false).unwrap();
    let c = run_batch(&frame, 7, true).unwrap();
    assert_eq!(a.crc_value, b.crc_value);
    assert_eq!(a.crc_value, c.crc_value);
}

#[test]
fn batch_value_matches_kernel() {
    let frame = [0xAA, 0xBB, 0xCC, 0xDD];
    assert_eq!(compute_batch_crcs_optimized(&frame, 3, false), 0x80C4);
    assert_eq!(compute_batch_crcs_optimized(&frame, 3, true), 0x80C4);
}

#[test]
fn iteration_zero_is_rejected() {
    let frame = [0x01];
    assert_eq!(
        run_batch(&frame, 0, false).unwrap_err(),
        ValidationError::IterationOutOfRange
    );
}

#[test]
fn iteration_above_bound_is_rejected() {
    let frame = [0x01];
    assert_eq!(
        run_batch(&frame, 1_000_000_001, true).unwrap_err(),
        ValidationError::IterationOutOfRange
    );
}

#[test]
fn iteration_bounds_are_accepted() {
    let frame = [0x01];
    assert!(run_batch(&frame, 1, false).is_ok());
}

#[test]
fn result_exposes_wire_order_bytes() {
    let r = CrcResult::new(0x0D70, 5);
    assert_eq!(r.crc_value, 0x0D70);
    assert_eq!(r.crc_lsb, 0x70);
    assert_eq!(r.crc_msb, 0x0D);
    assert_eq!(r.duration_nanos, 5);
}

#[test]
fn run_result_bytes_match_checksum() {
    let frame = [0x01, 0x04, 0x00, 0x00, 0x00, 0x0A];
    let r = run_batch(&frame, 2, true).unwrap();
    assert_eq!(r.crc_value, 0x0D70);
    assert_eq!(r.crc_lsb, 0x70);
    assert_eq!(r.crc_msb, 0x0D);
}

#[test]
fn parses_iteration_text() {
    assert_eq!(parse_iterations("1"), Ok(1));
    assert_eq!(parse_iterations(" 42 \n"), Ok(42));
    assert_eq!(parse_iterations("+7"), Ok(7));
    assert_eq!(parse_iterations("1000000000"), Ok(1_000_000_000));
    assert_eq!(parse_iterations("0001"), Ok(1));
}

#[test]
fn rejects_iteration_text_out_of_range() {
    assert_eq!(parse_iterations("0"), Err(ValidationError::IterationOutOfRange));
    assert_eq!(
        parse_iterations("1000000001"),
        Err(ValidationError::IterationOutOfRange)
    );
}

#[test]
fn rejects_iteration_text_that_is_no_number() {
    assert_eq!(parse_iterations(""), Err(ValidationError::NotANumber));
    assert_eq!(parse_iterations("abc"), Err(ValidationError::NotANumber));
    assert_eq!(parse_iterations("12x"), Err(ValidationError::NotANumber));
    assert_eq!(parse_iterations("-3"), Err(ValidationError::NotANumber));
    assert_eq!(parse_iterations("+"), Err(ValidationError::NotANumber));
    // Larger than u64 can hold: integer parsing itself fails.
    assert_eq!(
        parse_iterations("99999999999999999999999"),
        Err(ValidationError::NotANumber)
    );
}

#[test]
fn empty_frame_fails_validation() {
    assert_eq!(validate_frame(&[]).unwrap_err(), ValidationError::EmptyFrame);
    assert!(validate_frame(&[0x01]).is_ok());
}

#[test]
fn parallel_eligibility_follows_flag_and_threshold() {
    assert!(parallel_eligible(100_000, true));
    assert!(parallel_eligible(1_000_000_000, true));
    assert!(!parallel_eligible(99_999, true));
    assert!(!parallel_eligible(100_000, false));
}

#[test]
fn partition_covers_iterations_exactly() {
    let parts = partition_iterations(1_000_000, 8);
    assert_eq!(parts.len(), 8);
    assert_eq!(parts.iter().sum::<u64>(), 1_000_000);

    let parts = partition_iterations(10, 3);
    assert_eq!(parts, vec![4, 3, 3]);

    let parts = partition_iterations(2, 4);
    assert_eq!(parts, vec![1, 1, 0, 0]);

    let parts = partition_iterations(5, 1);
    assert_eq!(parts, vec![5]);
}

#[test]
fn pipeline_runs_baseline_once() {
    // One iteration, baseline variant: the reference checksum comes back and
    // the measured duration is a finite non-negative number by construction.
    let r = calculate_crc("01 03 00 01 00 02", "1", false).unwrap();
    assert_eq!(r.crc_value, 0xCB95);
    assert_eq!(r.crc_lsb, 0x95);
    assert_eq!(r.crc_msb, 0xCB);
}

#[test]
fn pipeline_large_optimized_batch_matches_single_run() {
    let single = calculate_crc("01 03 00 01 00 02", "1", false).unwrap();
    let batch = calculate_crc("01 03 00 01 00 02", "1000000", true).unwrap();
    assert_eq!(batch.crc_value, single.crc_value);
    assert!(batch.duration_nanos > 0);
}

#[test]
fn pipeline_rejects_bad_inputs_in_order() {
    assert!(matches!(
        calculate_crc("GG", "1", false),
        Err(RunError::Parse(ParseError::InvalidToken(_)))
    ));
    assert!(matches!(
        calculate_crc("", "1", false),
        Err(RunError::Validation(ValidationError::EmptyFrame))
    ));
    assert!(matches!(
        calculate_crc("AA", "zero", false),
        Err(RunError::Validation(ValidationError::NotANumber))
    ));
    assert!(matches!(
        calculate_crc("AA", "0", false),
        Err(RunError::Validation(ValidationError::IterationOutOfRange))
    ));
    let text = vec!["00"; 257].join(" ");
    assert!(matches!(
        calculate_crc(&text, "1", false),
        Err(RunError::Parse(ParseError::TooManyBytes))
    ));
}

#[test]
fn pipeline_agrees_with_parser_and_kernel() {
    let bytes = parse_hex_input("AA BB CC DD EE FF").unwrap();
    assert_eq!(bytes, vec![0xAA, 0xBB, 0xCC, 0xDD, 0xEE, 0xFF]);
    let r = calculate_crc("AA BB CC DD EE FF", "2", true).unwrap();
    assert_eq!(r.crc_value, 0x805E);
}
