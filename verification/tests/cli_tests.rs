use peak_mem::baseline::PercentThreshold;
use peak_mem::cli::{
    parse_interval, parse_number, parse_threshold, parse_units, threshold_from, Cli, CliError,
    MemoryUnit, OutputFormat, DEFAULT_INTERVAL_MS,
};

fn settings() -> Cli {
    Cli {
        command: vec!["true".to_string()],
        json: false,
        csv: false,
        quiet: false,
        verbose: false,
        watch: false,
        threshold: None,
        no_children: false,
        timeline: None,
        interval: 100,
        units: None,
        save_baseline: None,
        compare_baseline: None,
        regression_threshold: PercentThreshold::from_whole(10),
        baseline_dir: None,
        list_baselines: false,
        delete_baseline: None,
        short_version: false,
        long_version: false,
    }
}

#[test]
fn intervals_are_positive_numbers() {
    assert_eq!(parse_interval("100"), Ok(100));
    assert_eq!(parse_interval("1"), Ok(1));
    assert_eq!(parse_interval("+25"), Ok(25));
    assert_eq!(parse_interval("007"), Ok(7));
    assert_eq!(parse_interval("18446744073709551615"), Ok(u64::MAX));
    assert_eq!(parse_interval("0"), Err(CliError::ZeroInterval));
    assert_eq!(parse_interval("000"), Err(CliError::ZeroInterval));
    assert_eq!(parse_interval("+0"), Err(CliError::ZeroInterval));
    assert_eq!(parse_interval(""), Err(CliError::EmptyNumber));
    assert_eq!(parse_interval("+"), Err(CliError::InvalidDigit));
    assert_eq!(parse_interval("-"), Err(CliError::InvalidDigit));
    assert_eq!(parse_interval("-5"), Err(CliError::InvalidDigit));
    assert_eq!(parse_interval("++5"), Err(CliError::InvalidDigit));
    assert_eq!(parse_interval(" 5"), Err(CliError::InvalidDigit));
    assert_eq!(parse_interval("5 "), Err(CliError::InvalidDigit));
    assert_eq!(parse_interval("1_000"), Err(CliError::InvalidDigit));
    assert_eq!(parse_interval("1.5"), Err(CliError::InvalidDigit));
    assert_eq!(parse_interval("12ms"), Err(CliError::InvalidDigit));
    assert_eq!(parse_interval("٣"), Err(CliError::InvalidDigit));
    assert_eq!(parse_interval("18446744073709551616"), Err(CliError::NumberTooLarge));
    assert_eq!(parse_interval("99999999999999999999999999"), Err(CliError::NumberTooLarge));
    assert_eq!(parse_interval("99999999999999999999999999x"), Err(CliError::InvalidDigit));
}

#[test]
fn numbers_are_read_as_the_standard_library_reads_them() {
    let texts = [
        "", "0", "1", "+1", "-1", "+", "-", "00", "0010", "123456789", "18446744073709551615",
        "18446744073709551616", "184467440737095516150", "1e3", "0x10", " 1", "1 ", "+-1", "++1",
        "12a", "a12", "9223372036854775808", "99999999999999999999", "٣", "１２",
    ];
    for text in texts.iter() {
        assert_eq!(parse_number(text).ok(), text.parse::<u64>().ok(), "for {:?}", text);
    }
    assert_eq!(parse_number("0"), Ok(0));
}

#[test]
fn refusals_say_what_was_wrong() {
    assert_eq!("".parse::<u64>().unwrap_err().to_string(), CliError::EmptyNumber.message());
    assert_eq!("x".parse::<u64>().unwrap_err().to_string(), CliError::InvalidDigit.message());
    assert_eq!(
        "18446744073709551616".parse::<u64>().unwrap_err().to_string(),
        CliError::NumberTooLarge.message()
    );
    assert_eq!(CliError::ZeroInterval.message(), "Interval must be greater than zero");
    assert_eq!(CliError::InvalidUnit.message(),
        "Invalid unit. Use one of: B, KB, MB, GB, KiB, MiB, GiB");
    assert_eq!(
        CliError::InvalidThreshold.message(),
        "Invalid threshold format. Use formats like: 512M, 1G, 1.5GB"
    );
}

#[test]
fn units_are_read_from_their_symbols() {
    assert_eq!(parse_units("B"), Ok(MemoryUnit::Bytes));
    assert_eq!(parse_units("KB"), Ok(MemoryUnit::Kilobytes));
    assert_eq!(parse_units("MB"), Ok(MemoryUnit::Megabytes));
    assert_eq!(parse_units("GB"), Ok(MemoryUnit::Gigabytes));
    assert_eq!(parse_units("KiB"), Ok(MemoryUnit::Kibibytes));
    assert_eq!(parse_units("MiB"), Ok(MemoryUnit::Mebibytes));
    assert_eq!(parse_units("GiB"), Ok(MemoryUnit::Gibibytes));
    for wrong in ["", "b", "kb", "Kb", "KIB", "TB", "MB ", " MB", "M", "bytes"].iter() {
        assert_eq!(parse_units(wrong), Err(CliError::InvalidUnit), "for {:?}", wrong);
    }
}

#[test]
fn units_have_a_divisor_and_a_symbol() {
    let units = [
        (MemoryUnit::Bytes, 1u64, "B"),
        (MemoryUnit::Kilobytes, 1_000, "KB"),
        (MemoryUnit::Megabytes, 1_000_000, "MB"),
        (MemoryUnit::Gigabytes, 1_000_000_000, "GB"),
        (MemoryUnit::Kibibytes, 1_024, "KiB"),
        (MemoryUnit::Mebibytes, 1_048_576, "MiB"),
        (MemoryUnit::Gibibytes, 1_073_741_824, "GiB"),
    ];
    for (unit, divisor, symbol) in units.iter() {
        assert_eq!(unit.divisor(), *divisor);
        assert_eq!(unit.suffix(), *symbol);
        assert_eq!(parse_units(unit.suffix()), Ok(*unit));
    }
}

#[test]
fn thresholds_are_sizes() {
    assert_eq!(parse_threshold("512"), Ok(512));
    assert_eq!(parse_threshold("1K"), Ok(1_000));
    assert_eq!(parse_threshold("512M"), Ok(512_000_000));
    assert_eq!(parse_threshold("1G"), Ok(1_000_000_000));
    assert_eq!(parse_threshold("1.5GB"), Ok(1_500_000_000));
    assert_eq!(parse_threshold("1KiB"), Ok(1_024));
    assert_eq!(parse_threshold("2 MiB"), Ok(2_097_152));
    assert_eq!(parse_threshold("0"), Ok(0));
    assert_eq!(parse_threshold(""), Err(CliError::InvalidThreshold));
    assert_eq!(parse_threshold("lots"), Err(CliError::InvalidThreshold));
    assert_eq!(parse_threshold("12 parsecs"), Err(CliError::InvalidThreshold));
    assert_eq!(threshold_from(Some(7)), Ok(7));
    assert_eq!(threshold_from(None), Err(CliError::InvalidThreshold));
}

#[test]
fn the_format_flags_select_the_format() {
    let mut cli = settings();
    assert_eq!(cli.output_format(), OutputFormat::Human);
    cli.quiet = true;
    assert_eq!(cli.output_format(), OutputFormat::Quiet);
    cli.csv = true;
    assert_eq!(cli.output_format(), OutputFormat::Csv);
    cli.json = true;
    assert_eq!(cli.output_format(), OutputFormat::Json);
    cli.csv = false;
    cli.quiet = false;
    assert_eq!(cli.output_format(), OutputFormat::Json);
    cli.verbose = true;
    assert_eq!(cli.output_format(), OutputFormat::Json);
}

#[test]
fn descendants_are_tracked_unless_told_otherwise() {
    let mut cli = settings();
    assert!(cli.track_children());
    cli.no_children = true;
    assert!(!cli.track_children());
}

#[test]
fn the_defaults() {
    assert_eq!(DEFAULT_INTERVAL_MS, 100);
    assert_eq!(parse_interval("100"), Ok(DEFAULT_INTERVAL_MS));
    assert_eq!(PercentThreshold::default(), PercentThreshold::from_whole(10));
}
