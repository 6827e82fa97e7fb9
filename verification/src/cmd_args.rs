//! The options of a run, and the start time that the name of a log carries.

use crate::calendar::{
    local_to_utc, lookup_zone, naive_datetime_from_str, parse_naive_datetime, zone_is_known,
    zone_local_to_utc, LocalInstant,
};
use crate::cli::{clap_values, parse_arguments, ArgSpec, CliError};
use crate::pattern::{captures, regex_captures};
use vstd::prelude::*;
use vstd::string::*;
use vstd::utf8::is_ascii_chars;

verus! {

/// What a run is asked to do.
#[derive(Debug)]
pub struct Options {
    /// Where the text goes; standard output where there is none.
    pub output_file: Option<String>,
    /// The zone whose clocks the name of the log was taken from.
    pub timezone: String,
    /// The log to convert.
    pub input_file: String,
}

/// Why the name of a log gives no start time.
#[derive(Clone, Copy, Debug, PartialEq, Eq, Structural)]
pub enum AnchorError {
    /// The zone is none that the time zone tables hold.
    UnknownTimezone,
    /// The name carries no date and time.
    NoTimeInfo,
    /// The name carries digits that are no date and time.
    InvalidDateTime,
    /// The clocks of the zone showed that time never, or twice.
    NoUniqueInstant,
}

/// A zone that the time zone tables hold.
pub struct Zone {
    name: String,
}

impl Zone {
    #[verifier::type_invariant]
    spec fn inv(self) -> bool {
        zone_is_known(self.name@)
    }

    /// The name of the zone.
    pub closed spec fn name(self) -> Seq<char> {
        self.name@
    }

    /// The name of the zone.
    pub fn as_str(&self) -> (s: &str)
        ensures
            s@ == self.name(),
            zone_is_known(s@),
    {
        proof {
            use_type_invariant(self);
        }
        self.name.as_str()
    }
}

/// The pattern that the name of a log is searched for: the word `powerlog`,
/// eight digits of a date, six digits of a time of day, the ending `.dat`.
pub open spec fn file_name_pattern() -> Seq<char> {
    "powerlog-(\\d{8})-(\\d{6})\\.dat"@
}

/// The format under which the digits are read as a date and time.
pub open spec fn datetime_format() -> Seq<char> {
    "%Y%m%d %H%M%S"@
}

/// Whether `c` is one of the ten ASCII digits.
pub open spec fn is_ascii_digit(c: char) -> bool {
    '0' <= c <= '9'
}

/// Whether `text` is made of exactly `count` ASCII digits.
pub open spec fn is_digit_run(text: Seq<char>, count: nat) -> bool {
    text.len() == count && forall|i: int| 0 <= i < text.len() ==> is_ascii_digit(#[trigger] text[i])
}

/// The date and time that a search of the name found, as the eight digits of
/// the date, a space and the six digits of the time; `None` where the search
/// found nothing, or found digits beyond ASCII.
pub open spec fn timeinfo_of(groups: Option<Seq<Seq<char>>>) -> Option<Seq<char>> {
    match groups {
        Some(g) => if g.len() >= 3 && is_digit_run(g[1], 8) && is_digit_run(g[2], 6) {
            Some(g[1] + seq![' '] + g[2])
        } else {
            None
        },
        None => None,
    }
}

/// The instant that the clocks of a zone showed once; an error where they
/// showed the time never or twice.
pub open spec fn single_instant(local: LocalInstant) -> Result<i64, AnchorError> {
    match local {
        LocalInstant::Single(millis) => Ok(millis),
        _ => Err(AnchorError::NoUniqueInstant),
    }
}

/// The instant, in milliseconds since 1970-01-01T00:00:00 UTC, at which the
/// clocks of `zone` showed the date and time that `info` spells.
pub open spec fn unix_millis_of(info: Seq<char>, zone: Seq<char>) -> Result<i64, AnchorError> {
    match naive_datetime_from_str(info, datetime_format()) {
        Some(local) => single_instant(zone_local_to_utc(zone, local)),
        None => Err(AnchorError::InvalidDateTime),
    }
}

/// The start time that the name `input_file` carries, read by the clocks of
/// `timezone`.
pub open spec fn record_time_of(input_file: Seq<char>, timezone: Seq<char>) -> Result<
    i64,
    AnchorError,
> {
    if !zone_is_known(timezone) {
        Err(AnchorError::UnknownTimezone)
    } else {
        match timeinfo_of(regex_captures(file_name_pattern(), input_file)) {
            Some(info) => unix_millis_of(info, timezone),
            None => Err(AnchorError::NoTimeInfo),
        }
    }
}

/// Tests whether `text` is made of exactly `count` ASCII digits.
pub fn check_digit_run(text: &str, count: usize) -> (ok: bool)
    ensures
        ok == is_digit_run(text@, count as nat),
{
    if !text.is_ascii() {
        proof {
            if is_digit_run(text@, count as nat) {
                assert forall|i: int| 0 <= i < text@.len() implies '\0' <= #[trigger] text@[i]
                    <= '\u{7f}' by {
                    assert(is_ascii_digit(text@[i]));
                }
            }
        }
        return false;
    }
    proof {
        vstd::string::is_ascii_spec_bytes(text);
    }
    let bytes = text.as_bytes();
    if bytes.len() != count {
        return false;
    }
    let mut i: usize = 0;
    while i < count
        invariant
            i <= count,
            bytes@.len() == count,
            text@.len() == count,
            is_ascii_chars(text@),
            forall|k: int| 0 <= k < count ==> bytes@[k] == text@[k] as u8,
            forall|k: int| 0 <= k < i ==> is_ascii_digit(#[trigger] text@[k]),
        decreases count - i,
    {
        let b: u8 = bytes[i];
        if b < 48 || b > 57 {
            assert(!is_ascii_digit(text@[i as int]));
            return false;
        }
        assert(is_ascii_digit(text@[i as int]));
        i = i + 1;
    }
    true
}

/// Puts together the date and time that a search of the name found.
pub fn timeinfo_from_captures(groups: Option<Vec<String>>) -> (info: Option<String>)
    ensures
        info.deep_view() == timeinfo_of(groups.deep_view()),
{
    match groups {
        Some(g) => {
            if g.len() < 3 {
                return None;
            }
            let date = g[1].as_str();
            let time = g[2].as_str();
            assert(g.deep_view()[1] == date@);
            assert(g.deep_view()[2] == time@);
            if check_digit_run(date, 8) && check_digit_run(time, 6) {
                proof {
                    reveal_strlit(" ");
                    assert(" "@ =~= seq![' ']);
                }
                Some(String::from_str(date).concat(" ").concat(time))
            } else {
                None
            }
        },
        None => None,
    }
}

/// Picks the instant that a zone's clocks showed once.
pub fn instant_from_local(local: LocalInstant) -> (r: Result<i64, AnchorError>)
    ensures
        r == single_instant(local),
{
    match local {
        LocalInstant::Single(millis) => Ok(millis),
        _ => Err(AnchorError::NoUniqueInstant),
    }
}

/// Reads `s` as a date and time shown by the clocks of `tz` and gives the
/// instant in milliseconds since 1970-01-01T00:00:00 UTC.
pub fn try_convert_to_unix_mills(s: &str, tz: &Zone) -> (r: Result<i64, AnchorError>)
    ensures
        r == unix_millis_of(s@, tz.name()),
{
    match parse_naive_datetime(s, "%Y%m%d %H%M%S") {
        Some(local) => instant_from_local(local_to_utc(tz.as_str(), local)),
        None => Err(AnchorError::InvalidDateTime),
    }
}

impl Options {
    /// The zone that the options name, where the time zone tables hold it.
    pub fn get_timezone(&self) -> (r: Result<Zone, ()>)
        ensures
            r is Ok == zone_is_known(self.timezone@),
            r matches Ok(zone) ==> zone.name() == self.timezone@,
    {
        if lookup_zone(self.timezone.as_str()) {
            Ok(Zone { name: self.timezone.clone() })
        } else {
            Err(())
        }
    }

    /// The date and time that the name of the log carries.
    pub fn get_timeinfo(&self) -> (info: Option<String>)
        ensures
            info.deep_view() == timeinfo_of(
                regex_captures(file_name_pattern(), self.input_file@),
            ),
    {
        timeinfo_from_captures(
            captures("powerlog-(\\d{8})-(\\d{6})\\.dat", self.input_file.as_str()),
        )
    }

    /// The start time of the log, or why its name gives none.
    pub fn resolve_record_time(&self) -> (r: Result<i64, AnchorError>)
        ensures
            r == record_time_of(self.input_file@, self.timezone@),
    {
        match (self.get_timeinfo(), self.get_timezone()) {
            (Some(info), Ok(tz)) => try_convert_to_unix_mills(info.as_str(), &tz),
            (None, Ok(_)) => Err(AnchorError::NoTimeInfo),
            (_, Err(_)) => Err(AnchorError::UnknownTimezone),
        }
    }

    /// The start time of the log in milliseconds since 1970-01-01T00:00:00
    /// UTC, where its name carries one and the zone is known.
    pub fn get_record_time(&self) -> (r: Option<i64>)
        ensures
            r == match record_time_of(self.input_file@, self.timezone@) {
                Ok(millis) => Some(millis),
                Err(_) => None,
            },
    {
        match self.resolve_record_time() {
            Ok(millis) => Some(millis),
            Err(_) => None,
        }
    }
}

/// The arguments of the command line: where the text goes, the zone, and
/// the log by position.
pub open spec fn arguments() -> Seq<ArgSpec> {
    seq![
        ArgSpec {
            id: "output_file",
            short: Some('o'),
            long: Some("output"),
            value_name: "FILE",
            default_value: None,
            help: "Set output file name",
            required: false,
        },
        ArgSpec {
            id: "timezone",
            short: Some('t'),
            long: Some("timezone"),
            value_name: "ZONE-NAME",
            default_value: Some("Asia/Tokyo"),
            help: "Set applicable time zone",
            required: false,
        },
        ArgSpec {
            id: "input_file",
            short: None,
            long: None,
            value_name: "INPUT_FILE",
            default_value: None,
            help: "input file name",
            required: true,
        },
    ]
}

/// The options that the values of the three arguments make; none where the
/// zone or the log is missing among them.
pub open spec fn options_of(values: Seq<Option<Seq<char>>>) -> Option<(
    Option<Seq<char>>,
    Seq<char>,
    Seq<char>,
)> {
    if values.len() == 3 && values[1] is Some && values[2] is Some {
        Some((values[0], values[1].unwrap(), values[2].unwrap()))
    } else {
        None
    }
}

/// Builds the arguments of the command line.
fn make_arguments() -> (args: Vec<ArgSpec>)
    ensures
        args@ == arguments(),
{
    let mut args: Vec<ArgSpec> = Vec::new();
    args.push(
        ArgSpec {
            id: "output_file",
            short: Some('o'),
            long: Some("output"),
            value_name: "FILE",
            default_value: None,
            help: "Set output file name",
            required: false,
        },
    );
    args.push(
        ArgSpec {
            id: "timezone",
            short: Some('t'),
            long: Some("timezone"),
            value_name: "ZONE-NAME",
            default_value: Some("Asia/Tokyo"),
            help: "Set applicable time zone",
            required: false,
        },
    );
    args.push(
        ArgSpec {
            id: "input_file",
            short: None,
            long: None,
            value_name: "INPUT_FILE",
            default_value: None,
            help: "input file name",
            required: true,
        },
    );
    assert(args@ =~= arguments());
    args
}

/// Makes the options of the values of the three arguments.
pub fn options_from_values(values: Vec<Option<String>>) -> (r: Option<Options>)
    ensures
        match r {
            Some(options) => options_of(values.deep_view()) == Some(
                (options.output_file.deep_view(), options.timezone@, options.input_file@),
            ),
            None => options_of(values.deep_view()) is None,
        },
{
    if values.len() != 3 {
        return None;
    }
    assert(values.deep_view()[0] == values[0].deep_view());
    assert(values.deep_view()[1] == values[1].deep_view());
    assert(values.deep_view()[2] == values[2].deep_view());
    match (&values[1], &values[2]) {
        (Some(timezone), Some(input_file)) => Some(
            Options {
                output_file: values[0].clone(),
                timezone: timezone.clone(),
                input_file: input_file.clone(),
            },
        ),
        _ => None,
    }
}

/// Reads the options from the command line `argv`, the program's name first.
///
/// An error says what to tell the user and how to end: so where the command
/// line is refused, and where it asks for the help text or the version.
pub fn parse(argv: Vec<String>) -> (r: Result<Options, CliError>)
    ensures
        ({
            let values = clap_values(
                "converter"@,
                "0.1.0"@,
                "Converter for DC power logger"@,
                arguments(),
                argv.deep_view(),
            );
            match r {
                Ok(options) => values is Some && options_of(values.unwrap()) == Some(
                    (options.output_file.deep_view(), options.timezone@, options.input_file@),
                ),
                Err(e) => values is None || (options_of(values.unwrap()) is None && e.use_stderr
                    && e.exit_code == 2),
            }
        }),
{
    let args = make_arguments();
    match parse_arguments("converter", "0.1.0", "Converter for DC power logger", &args, &argv) {
        Ok(values) => match options_from_values(values) {
            Some(options) => Ok(options),
            None => Err(
                CliError {
                    message: String::from_str("the command line gave no input file"),
                    use_stderr: true,
                    exit_code: 2,
                },
            ),
        },
        Err(e) => Err(e),
    }
}

} // verus!
