//! Log severities.

use vstd::prelude::*;

verus! {

/// The severities of the log data model, from least to most severe.
#[derive(Clone, Copy, Debug, PartialEq, Eq, Structural)]
pub enum Severity {
    Trace,
    Trace2,
    Trace3,
    Trace4,
    Debug,
    Debug2,
    Debug3,
    Debug4,
    Info,
    Info2,
    Info3,
    Info4,
    Warn,
    Warn2,
    Warn3,
    Warn4,
    Error,
    Error2,
    Error3,
    Error4,
    Fatal,
    Fatal2,
    Fatal3,
    Fatal4,
}

/// The canonical number of a severity: one to twenty-four in order.
pub open spec fn number_of(severity: Severity) -> u32 {
    match severity {
        Severity::Trace => 1,
        Severity::Trace2 => 2,
        Severity::Trace3 => 3,
        Severity::Trace4 => 4,
        Severity::Debug => 5,
        Severity::Debug2 => 6,
        Severity::Debug3 => 7,
        Severity::Debug4 => 8,
        Severity::Info => 9,
        Severity::Info2 => 10,
        Severity::Info3 => 11,
        Severity::Info4 => 12,
        Severity::Warn => 13,
        Severity::Warn2 => 14,
        Severity::Warn3 => 15,
        Severity::Warn4 => 16,
        Severity::Error => 17,
        Severity::Error2 => 18,
        Severity::Error3 => 19,
        Severity::Error4 => 20,
        Severity::Fatal => 21,
        Severity::Fatal2 => 22,
        Severity::Fatal3 => 23,
        Severity::Fatal4 => 24,
    }
}

/// The name of the family that a severity number belongs to; each family has four numbers.
pub open spec fn family(number: u32) -> Seq<char> {
    if number <= 4 {
        "TRACE"@
    } else if number <= 8 {
        "DEBUG"@
    } else if number <= 12 {
        "INFO"@
    } else if number <= 16 {
        "WARN"@
    } else if number <= 20 {
        "ERROR"@
    } else {
        "FATAL"@
    }
}

/// What distinguishes a severity number within its family: nothing for the first one.
pub open spec fn ordinal(number: u32) -> Seq<char> {
    if number % 4 == 1 {
        Seq::empty()
    } else if number % 4 == 2 {
        "2"@
    } else if number % 4 == 3 {
        "3"@
    } else {
        "4"@
    }
}

/// The canonical text of a severity.
pub open spec fn name_of(severity: Severity) -> Seq<char> {
    family(number_of(severity)) + ordinal(number_of(severity))
}

/// Whether a record may carry this severity number; zero stands for no severity.
pub open spec fn is_valid_number(number: u32) -> bool {
    number <= 24
}

/// Whether a record may carry this severity number; zero stands for no severity.
pub fn log_severity_is_valid(number: u32) -> (r: bool)
    ensures
        r == is_valid_number(number),
{
    number <= 24
}

/// The severity with the given number.
pub fn severity_from_u32(severity: u32) -> (r: Option<Severity>)
    ensures
        r is Some <==> 1 <= severity <= 24,
        r matches Some(s) ==> number_of(s) == severity,
{
    match severity {
        1 => Some(Severity::Trace),
        2 => Some(Severity::Trace2),
        3 => Some(Severity::Trace3),
        4 => Some(Severity::Trace4),
        5 => Some(Severity::Debug),
        6 => Some(Severity::Debug2),
        7 => Some(Severity::Debug3),
        8 => Some(Severity::Debug4),
        9 => Some(Severity::Info),
        10 => Some(Severity::Info2),
        11 => Some(Severity::Info3),
        12 => Some(Severity::Info4),
        13 => Some(Severity::Warn),
        14 => Some(Severity::Warn2),
        15 => Some(Severity::Warn3),
        16 => Some(Severity::Warn4),
        17 => Some(Severity::Error),
        18 => Some(Severity::Error2),
        19 => Some(Severity::Error3),
        20 => Some(Severity::Error4),
        21 => Some(Severity::Fatal),
        22 => Some(Severity::Fatal2),
        23 => Some(Severity::Fatal3),
        24 => Some(Severity::Fatal4),
        _ => None,
    }
}

/// The canonical number of a severity.
pub fn severity_number(severity: Severity) -> (r: u32)
    ensures
        r == number_of(severity),
{
    match severity {
        Severity::Trace => 1,
        Severity::Trace2 => 2,
        Severity::Trace3 => 3,
        Severity::Trace4 => 4,
        Severity::Debug => 5,
        Severity::Debug2 => 6,
        Severity::Debug3 => 7,
        Severity::Debug4 => 8,
        Severity::Info => 9,
        Severity::Info2 => 10,
        Severity::Info3 => 11,
        Severity::Info4 => 12,
        Severity::Warn => 13,
        Severity::Warn2 => 14,
        Severity::Warn3 => 15,
        Severity::Warn4 => 16,
        Severity::Error => 17,
        Severity::Error2 => 18,
        Severity::Error3 => 19,
        Severity::Error4 => 20,
        Severity::Fatal => 21,
        Severity::Fatal2 => 22,
        Severity::Fatal3 => 23,
        Severity::Fatal4 => 24,
    }
}

/// Severities with the same number are the same.
pub proof fn number_determines_severity(a: Severity, b: Severity)
    ensures
        number_of(a) == number_of(b) <==> a == b,
        1 <= number_of(a) <= 24,
{
}

impl Severity {
    /// The canonical text of this severity.
    pub fn name(&self) -> (r: &'static str)
        ensures
            r@ == name_of(*self),
    {
        proof {
            reveal_strlit("TRACE");
            reveal_strlit("DEBUG");
            reveal_strlit("INFO");
            reveal_strlit("WARN");
            reveal_strlit("ERROR");
            reveal_strlit("FATAL");
            reveal_strlit("2");
            reveal_strlit("3");
            reveal_strlit("4");
            reveal_strlit("TRACE2");
            reveal_strlit("TRACE3");
            reveal_strlit("TRACE4");
            reveal_strlit("DEBUG2");
            reveal_strlit("DEBUG3");
            reveal_strlit("DEBUG4");
            reveal_strlit("INFO2");
            reveal_strlit("INFO3");
            reveal_strlit("INFO4");
            reveal_strlit("WARN2");
            reveal_strlit("WARN3");
            reveal_strlit("WARN4");
            reveal_strlit("ERROR2");
            reveal_strlit("ERROR3");
            reveal_strlit("ERROR4");
            reveal_strlit("FATAL2");
            reveal_strlit("FATAL3");
            reveal_strlit("FATAL4");
        }
        let name = match self {
            Severity::Trace => "TRACE",
            Severity::Trace2 => "TRACE2",
            Severity::Trace3 => "TRACE3",
            Severity::Trace4 => "TRACE4",
            Severity::Debug => "DEBUG",
            Severity::Debug2 => "DEBUG2",
            Severity::Debug3 => "DEBUG3",
            Severity::Debug4 => "DEBUG4",
            Severity::Info => "INFO",
            Severity::Info2 => "INFO2",
            Severity::Info3 => "INFO3",
            Severity::Info4 => "INFO4",
            Severity::Warn => "WARN",
            Severity::Warn2 => "WARN2",
            Severity::Warn3 => "WARN3",
            Severity::Warn4 => "WARN4",
            Severity::Error => "ERROR",
            Severity::Error2 => "ERROR2",
            Severity::Error3 => "ERROR3",
            Severity::Error4 => "ERROR4",
            Severity::Fatal => "FATAL",
            Severity::Fatal2 => "FATAL2",
            Severity::Fatal3 => "FATAL3",
            Severity::Fatal4 => "FATAL4",
        };
        assert(name@ =~= name_of(*self));
        name
    }
}

} // verus!
