//! The settings of a run, and the parsers of their values.

use vstd::prelude::*;
use crate::baseline::PercentThreshold;
use crate::text::{chars_of, same_text};

verus! {

/// A unit in which memory sizes can be shown.
#[derive(Clone, Copy, Debug, PartialEq, Eq, Structural)]
pub enum MemoryUnit {
    Bytes,
    Kilobytes,
    Megabytes,
    Gigabytes,
    Kibibytes,
    Mebibytes,
    Gibibytes,
}

impl MemoryUnit {
    /// How many bytes one unit holds.
    pub open spec fn bytes_per_unit(self) -> nat {
        match self {
            MemoryUnit::Bytes => 1,
            MemoryUnit::Kilobytes => 1_000,
            MemoryUnit::Megabytes => 1_000_000,
            MemoryUnit::Gigabytes => 1_000_000_000,
            MemoryUnit::Kibibytes => 1_024,
            MemoryUnit::Mebibytes => 1_048_576,
            MemoryUnit::Gibibytes => 1_073_741_824,
        }
    }

    /// How the unit is written.
    pub open spec fn symbol(self) -> Seq<char> {
        match self {
            MemoryUnit::Bytes => "B"@,
            MemoryUnit::Kilobytes => "KB"@,
            MemoryUnit::Megabytes => "MB"@,
            MemoryUnit::Gigabytes => "GB"@,
            MemoryUnit::Kibibytes => "KiB"@,
            MemoryUnit::Mebibytes => "MiB"@,
            MemoryUnit::Gibibytes => "GiB"@,
        }
    }

    /// How many bytes one unit holds: powers of 1000 for the decimal
    /// units, powers of 1024 for the binary ones.
    pub fn divisor(&self) -> (bytes: u64)
        ensures
            bytes == self.bytes_per_unit(),
    {
        match self {
            MemoryUnit::Bytes => 1,
            MemoryUnit::Kilobytes => 1_000,
            MemoryUnit::Megabytes => 1_000_000,
            MemoryUnit::Gigabytes => 1_000_000_000,
            MemoryUnit::Kibibytes => 1_024,
            MemoryUnit::Mebibytes => 1_048_576,
            MemoryUnit::Gibibytes => 1_073_741_824,
        }
    }

    /// How the unit is written after a number.
    pub fn suffix(&self) -> (symbol: &'static str)
        ensures
            symbol@ == self.symbol(),
    {
        match self {
            MemoryUnit::Bytes => "B",
            MemoryUnit::Kilobytes => "KB",
            MemoryUnit::Megabytes => "MB",
            MemoryUnit::Gigabytes => "GB",
            MemoryUnit::Kibibytes => "KiB",
            MemoryUnit::Mebibytes => "MiB",
            MemoryUnit::Gibibytes => "GiB",
        }
    }
}

/// How the outcome of a run is written out.
#[derive(Clone, Copy, Debug, PartialEq, Eq, Structural)]
pub enum OutputFormat {
    Human,
    Json,
    Csv,
    Quiet,
}

/// Why the value of a setting was refused.
#[derive(Clone, Copy, Debug, PartialEq, Eq, Structural)]
pub enum CliError {
    /// A number was asked for and nothing was given.
    EmptyNumber,
    /// A number holds something that is not a digit.
    InvalidDigit,
    /// A number does not fit in 64 bits.
    NumberTooLarge,
    /// The sampling interval is zero.
    ZeroInterval,
    /// The unit is none of the known ones.
    InvalidUnit,
    /// The threshold is not a size.
    InvalidThreshold,
}

impl CliError {
    /// The words that tell the user what was wrong.
    pub open spec fn text(self) -> Seq<char> {
        match self {
            CliError::EmptyNumber => "cannot parse integer from empty string"@,
            CliError::InvalidDigit => "invalid digit found in string"@,
            CliError::NumberTooLarge => "number too large to fit in target type"@,
            CliError::ZeroInterval => "Interval must be greater than zero"@,
            CliError::InvalidUnit => "Invalid unit. Use one of: B, KB, MB, GB, KiB, MiB, GiB"@,
            CliError::InvalidThreshold => "Invalid threshold format. Use formats like: 512M, 1G, 1.5GB"@,
        }
    }

    /// The words that tell the user what was wrong.
    pub fn message(&self) -> (message: String)
        ensures
            message@ == self.text(),
    {
        match self {
            CliError::EmptyNumber => "cannot parse integer from empty string".to_owned(),
            CliError::InvalidDigit => "invalid digit found in string".to_owned(),
            CliError::NumberTooLarge => "number too large to fit in target type".to_owned(),
            CliError::ZeroInterval => "Interval must be greater than zero".to_owned(),
            CliError::InvalidUnit => "Invalid unit. Use one of: B, KB, MB, GB, KiB, MiB, GiB".to_owned(),
            CliError::InvalidThreshold => "Invalid threshold format. Use formats like: 512M, 1G, 1.5GB".to_owned(),
        }
    }
}

/// Whether a character is a decimal digit.
pub open spec fn is_digit(c: char) -> bool {
    '0' <= c <= '9'
}

/// The number that a sequence of decimal digits writes, 0 for the empty
/// sequence.
pub open spec fn digits_value(digits: Seq<char>) -> nat
    decreases digits.len(),
{
    if digits.len() == 0 {
        0
    } else {
        digits_value(digits.drop_last()) * 10 + (digits.last() as u32 - '0' as u32) as nat
    }
}

/// The digits of a number's text: what follows an optional leading `+`.
pub open spec fn digits_of(text: Seq<char>) -> Seq<char> {
    if text.len() > 0 && text[0] == '+' {
        text.drop_first()
    } else {
        text
    }
}

/// What the text of an unsigned number means. The text is an optional
/// `+` and then one or more decimal digits, nothing else; the number must
/// fit in 64 bits.
pub open spec fn number_of(text: Seq<char>) -> Result<u64, CliError> {
    let digits = digits_of(text);
    if text.len() == 0 {
        Err(CliError::EmptyNumber)
    } else if digits.len() == 0 || exists|i: int| 0 <= i < digits.len() && !is_digit(digits[i]) {
        Err(CliError::InvalidDigit)
    } else if digits_value(digits) > u64::MAX {
        Err(CliError::NumberTooLarge)
    } else {
        Ok(digits_value(digits) as u64)
    }
}

/// A number only grows as digits are added to it.
proof fn lemma_digits_value_monotone(digits: Seq<char>, n: int)
    requires
        0 <= n <= digits.len(),
        forall|i: int| 0 <= i < digits.len() ==> is_digit(digits[i]),
    ensures
        digits_value(digits.take(n)) <= digits_value(digits),
    decreases digits.len() - n,
{
    if n < digits.len() {
        lemma_digits_value_monotone(digits, n + 1);
        assert(digits.take(n + 1).drop_last() =~= digits.take(n));
    } else {
        assert(digits.take(n) =~= digits);
    }
}

/// Reads an unsigned number in decimal.
pub fn parse_number(text: &str) -> (number: Result<u64, CliError>)
    ensures
        number == number_of(text@),
{
    let chars = chars_of(text);
    if chars.len() == 0 {
        return Err(CliError::EmptyNumber);
    }
    let start: usize = if chars[0] == '+' {
        1
    } else {
        0
    };
    let ghost digits = digits_of(text@);
    assert(digits =~= text@.skip(start as int));
    if start == chars.len() {
        return Err(CliError::InvalidDigit);
    }
    let mut value: u64 = 0;
    let mut i: usize = start;
    assert(digits.take(0) =~= Seq::<char>::empty());
    while i < chars.len()
        invariant
            start <= i <= chars.len(),
            start < chars.len(),
            chars@ == text@,
            digits == text@.skip(start as int),
            digits == digits_of(text@),
            forall|j: int| 0 <= j < i - start ==> is_digit(digits[j]),
            value == digits_value(digits.take(i - start)),
        decreases chars.len() - i,
    {
        let c = chars[i];
        assert(digits[i - start] == c);
        if c < '0' || c > '9' {
            assert(!is_digit(digits[i - start]));
            return Err(CliError::InvalidDigit);
        }
        let digit: u64 = (c as u32 - '0' as u32) as u64;
        proof {
            assert(digits.take(i - start + 1).drop_last() =~= digits.take(i - start));
            assert(digits.take(i - start + 1).last() == c);
        }
        let next = match value.checked_mul(10) {
            Some(tens) => tens.checked_add(digit),
            None => None,
        };
        match next {
            Some(sum) => {
                value = sum;
            },
            None => {
                proof {
                    assert(digits_value(digits.take(i - start + 1)) == value * 10 + digit);
                    if forall|j: int| 0 <= j < digits.len() ==> is_digit(digits[j]) {
                        lemma_digits_value_monotone(digits, i - start + 1);
                    }
                }
                return rest_are_digits(&chars, i + 1, Ghost(start), Ghost(digits));
            },
        }
        i += 1;
    }
    assert(digits.take(chars.len() - start) =~= digits);
    Ok(value)
}

/// What a number that has outgrown 64 bits is: too large where only
/// digits follow, and badly written otherwise.
fn rest_are_digits(
    chars: &Vec<char>,
    from: usize,
    Ghost(start): Ghost<usize>,
    Ghost(digits): Ghost<Seq<char>>,
) -> (number: Result<u64, CliError>)
    requires
        start < from <= chars.len(),
        digits == chars@.skip(start as int),
        forall|j: int| 0 <= j < from - start ==> is_digit(digits[j]),
        (forall|j: int| 0 <= j < digits.len() ==> is_digit(digits[j]))
            ==> digits_value(digits) > u64::MAX,
    ensures
        number == (if exists|j: int| 0 <= j < digits.len() && !is_digit(digits[j]) {
            Err::<u64, CliError>(CliError::InvalidDigit)
        } else {
            Err::<u64, CliError>(CliError::NumberTooLarge)
        }),
{
    let mut i: usize = from;
    while i < chars.len()
        invariant
            from <= i <= chars.len(),
            start < from,
            digits == chars@.skip(start as int),
            forall|j: int| 0 <= j < i - start ==> is_digit(digits[j]),
        decreases chars.len() - i,
    {
        let c = chars[i];
        assert(digits[i - start] == c);
        if c < '0' || c > '9' {
            return Err(CliError::InvalidDigit);
        }
        i += 1;
    }
    Err(CliError::NumberTooLarge)
}

/// What the text of a sampling interval means: a number of
/// milliseconds, and not zero.
pub open spec fn interval_of(text: Seq<char>) -> Result<u64, CliError> {
    match number_of(text) {
        Ok(interval) => if interval == 0 {
            Err(CliError::ZeroInterval)
        } else {
            Ok(interval)
        },
        Err(e) => Err(e),
    }
}

/// Reads a sampling interval in milliseconds. Zero is refused.
pub fn parse_interval(s: &str) -> (interval: Result<u64, CliError>)
    ensures
        interval == interval_of(s@),
{
    let interval = match parse_number(s) {
        Ok(interval) => interval,
        Err(e) => {
            return Err(e);
        },
    };
    if interval == 0 {
        return Err(CliError::ZeroInterval);
    }
    Ok(interval)
}

/// Which unit a symbol names, `None` where it names none. Symbols are
/// taken as written: no other case is accepted.
pub open spec fn unit_of(symbol: Seq<char>) -> Option<MemoryUnit> {
    if symbol == "B"@ {
        Some(MemoryUnit::Bytes)
    } else if symbol == "KB"@ {
        Some(MemoryUnit::Kilobytes)
    } else if symbol == "MB"@ {
        Some(MemoryUnit::Megabytes)
    } else if symbol == "GB"@ {
        Some(MemoryUnit::Gigabytes)
    } else if symbol == "KiB"@ {
        Some(MemoryUnit::Kibibytes)
    } else if symbol == "MiB"@ {
        Some(MemoryUnit::Mebibytes)
    } else if symbol == "GiB"@ {
        Some(MemoryUnit::Gibibytes)
    } else {
        None
    }
}

/// Reads a unit from its symbol: one of `B`, `KB`, `MB`, `GB`, `KiB`,
/// `MiB`, `GiB`.
pub fn parse_units(s: &str) -> (unit: Result<MemoryUnit, CliError>)
    ensures
        match unit_of(s@) {
            Some(named) => unit == Ok::<MemoryUnit, CliError>(named),
            None => unit == Err::<MemoryUnit, CliError>(CliError::InvalidUnit),
        },
{
    if same_text(s, "B") {
        Ok(MemoryUnit::Bytes)
    } else if same_text(s, "KB") {
        Ok(MemoryUnit::Kilobytes)
    } else if same_text(s, "MB") {
        Ok(MemoryUnit::Megabytes)
    } else if same_text(s, "GB") {
        Ok(MemoryUnit::Gigabytes)
    } else if same_text(s, "KiB") {
        Ok(MemoryUnit::Kibibytes)
    } else if same_text(s, "MiB") {
        Ok(MemoryUnit::Mebibytes)
    } else if same_text(s, "GiB") {
        Ok(MemoryUnit::Gibibytes)
    } else {
        Err(CliError::InvalidUnit)
    }
}

/// Every unit is read back from its own symbol.
pub proof fn lemma_unit_symbols_round_trip(unit: MemoryUnit)
    ensures
        unit_of(unit.symbol()) == Some(unit),
{
    reveal_strlit("B");
    reveal_strlit("KB");
    reveal_strlit("MB");
    reveal_strlit("GB");
    reveal_strlit("KiB");
    reveal_strlit("MiB");
    reveal_strlit("GiB");
    assert("B"@.len() == 1);
    assert("KB"@.len() == 2 && "KB"@[0] == 'K');
    assert("MB"@.len() == 2 && "MB"@[0] == 'M');
    assert("GB"@.len() == 2 && "GB"@[0] == 'G');
    assert("KiB"@.len() == 3 && "KiB"@[0] == 'K');
    assert("MiB"@.len() == 3 && "MiB"@[0] == 'M');
    assert("GiB"@.len() == 3 && "GiB"@[0] == 'G');
}

/// The size in bytes that `bytesize` reads from a text such as `512M`,
/// `1G` or `1.5GB`, `None` where it reads none.
pub uninterp spec fn byte_size_of(text: Seq<char>) -> Option<u64>;

/// Hands a text to the `FromStr` of `bytesize::ByteSize` and gives back
/// the number of bytes it read. What is read is a function of the text
/// alone; no more is claimed of it.
#[verifier::external_body]
fn read_byte_size(text: &str) -> (bytes: Option<u64>)
    ensures
        bytes == byte_size_of(text@),
{
    match text.parse::<bytesize::ByteSize>() {
        Ok(size) => Some(size.0),
        Err(_) => None,
    }
}

/// The memory threshold that a size, read or not, stands for.
pub fn threshold_from(size: Option<u64>) -> (threshold: Result<u64, CliError>)
    ensures
        match size {
            Some(bytes) => threshold == Ok::<u64, CliError>(bytes),
            None => threshold == Err::<u64, CliError>(CliError::InvalidThreshold),
        },
{
    match size {
        Some(bytes) => Ok(bytes),
        None => Err(CliError::InvalidThreshold),
    }
}

/// Reads a memory threshold such as `512M`, `1G` or `1.5GB`, in bytes.
pub fn parse_threshold(s: &str) -> (threshold: Result<u64, CliError>)
    ensures
        match byte_size_of(s@) {
            Some(bytes) => threshold == Ok::<u64, CliError>(bytes),
            None => threshold == Err::<u64, CliError>(CliError::InvalidThreshold),
        },
{
    threshold_from(read_byte_size(s))
}

/// The sampling interval where none is given, in milliseconds.
pub const DEFAULT_INTERVAL_MS: u64 = 100;

/// The settings of one run, as plain values.
#[derive(Debug)]
pub struct Cli {
    /// The command to run and its arguments.
    pub command: Vec<String>,
    /// Write the outcome as JSON.
    pub json: bool,
    /// Write the outcome as CSV.
    pub csv: bool,
    /// Write the resident peak only.
    pub quiet: bool,
    /// Write a detailed breakdown.
    pub verbose: bool,
    /// Show memory usage while the command runs.
    pub watch: bool,
    /// The resident size, in bytes, above which the run fails.
    pub threshold: Option<u64>,
    /// Sample the command alone, without its descendants.
    pub no_children: bool,
    /// The file to write the timeline to.
    pub timeline: Option<String>,
    /// The sampling interval, in milliseconds.
    pub interval: u64,
    /// The unit to show sizes in.
    pub units: Option<MemoryUnit>,
    /// The name to save the outcome under as a baseline.
    pub save_baseline: Option<String>,
    /// The name of the baseline to compare the outcome against.
    pub compare_baseline: Option<String>,
    /// The resident growth, in percent, that counts as a regression.
    pub regression_threshold: PercentThreshold,
    /// The directory that holds the baselines.
    pub baseline_dir: Option<String>,
    /// List the saved baselines and run nothing.
    pub list_baselines: bool,
    /// The name of a baseline to delete, running nothing.
    pub delete_baseline: Option<String>,
    /// Show the short version.
    pub short_version: bool,
    /// Show the long version.
    pub long_version: bool,
}

/// The format that the three format flags select: JSON before CSV before
/// quiet, and the one for people where none is set.
pub open spec fn format_of(json: bool, csv: bool, quiet: bool) -> OutputFormat {
    if json {
        OutputFormat::Json
    } else if csv {
        OutputFormat::Csv
    } else if quiet {
        OutputFormat::Quiet
    } else {
        OutputFormat::Human
    }
}

impl Cli {
    /// The format the outcome is written in.
    pub fn output_format(&self) -> (format: OutputFormat)
        ensures
            format == format_of(self.json, self.csv, self.quiet),
    {
        if self.json {
            OutputFormat::Json
        } else if self.csv {
            OutputFormat::Csv
        } else if self.quiet {
            OutputFormat::Quiet
        } else {
            OutputFormat::Human
        }
    }

    /// Whether the descendants of the command are sampled with it.
    pub fn track_children(&self) -> (track: bool)
        ensures
            track == !self.no_children,
    {
        !self.no_children
    }
}

} // verus!
