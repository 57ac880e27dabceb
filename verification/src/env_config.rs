//! Decisions on values of environment variables.
//!
//! Each decision also names the warnings that a rejected value deserves; printing them, like
//! reading the environment, is left to the caller.

use vstd::prelude::*;

use crate::text::{equal_ignoring_ascii_case, same_text_ignoring_case};
use vstd::utf8::encode_utf8;

verus! {

pub const OTEL_SDK_DISABLED: &'static str = "OTEL_SDK_DISABLED";

pub const OTEL_EXPORTER_OTLP_PROTOCOL: &'static str = "OTEL_EXPORTER_OTLP_PROTOCOL";

pub const OTEL_EXPORTER_OTLP_TRACES_PROTOCOL: &'static str = "OTEL_EXPORTER_OTLP_TRACES_PROTOCOL";

pub const OTEL_EXPORTER_OTLP_METRICS_PROTOCOL: &'static str = "OTEL_EXPORTER_OTLP_METRICS_PROTOCOL";

pub const OTEL_EXPORTER_OTLP_LOGS_PROTOCOL: &'static str = "OTEL_EXPORTER_OTLP_LOGS_PROTOCOL";

/// The protocols of an OTLP exporter.
#[derive(Clone, Copy, Debug, PartialEq, Eq, Structural)]
pub enum OtlpProtocol {
    HttpProtobuf,
    Grpc,
}

/// Equality up to ASCII case.
pub open spec fn reads_as(value: Seq<char>, name: Seq<char>) -> bool {
    equal_ignoring_ascii_case(encode_utf8(value), encode_utf8(name))
}

/// The protocol that a value names, whatever its ASCII case.
pub open spec fn named_protocol(value: Seq<char>) -> Option<OtlpProtocol> {
    if reads_as(value, "http/protobuf"@) {
        Some(OtlpProtocol::HttpProtobuf)
    } else if reads_as(value, "grpc"@) {
        Some(OtlpProtocol::Grpc)
    } else {
        None
    }
}

/// The text of a variable, where it is set and not empty.
pub open spec fn set_value(value: Option<String>) -> Option<Seq<char>> {
    match value {
        Some(text) => if text@.len() > 0 {
            Some(text@)
        } else {
            None
        },
        None => None,
    }
}

/// The protocol that a variable's value decides on.
pub open spec fn decided(value: Option<String>) -> Option<OtlpProtocol> {
    match set_value(value) {
        Some(text) => named_protocol(text),
        None => None,
    }
}

/// Whether a variable is set to something that names no protocol.
pub open spec fn unrecognized(value: Option<String>) -> bool {
    set_value(value) is Some && decided(value) is None
}

/// The warning about an unrecognized value of the variable `name`.
pub open spec fn protocol_warning(name: Seq<char>) -> Seq<char> {
    "ignoring unrecognized "@ + name + " value; supported values are grpc and http/protobuf"@
}

/// The protocol that the two variables select: the specific one wins over the generic one.
pub open spec fn selected_protocol(specific: Option<String>, generic: Option<String>) -> OtlpProtocol {
    if decided(specific) is Some {
        decided(specific)->0
    } else if decided(generic) is Some {
        decided(generic)->0
    } else {
        OtlpProtocol::HttpProtobuf
    }
}

/// The names of the variables whose value was looked at and not recognized.
pub open spec fn ignored_variables(
    signal_name: Seq<char>,
    specific: Option<String>,
    generic: Option<String>,
) -> Seq<Seq<char>> {
    let first = if unrecognized(specific) {
        seq![signal_name]
    } else {
        Seq::empty()
    };
    if decided(specific) is None && unrecognized(generic) {
        first.push(OTEL_EXPORTER_OTLP_PROTOCOL@)
    } else {
        first
    }
}

/// The protocol that `value` names, whatever its ASCII case.
pub fn parse_protocol(value: &str) -> (r: Option<OtlpProtocol>)
    ensures
        r == named_protocol(value@),
{
    if same_text_ignoring_case(value, "http/protobuf") {
        Some(OtlpProtocol::HttpProtobuf)
    } else if same_text_ignoring_case(value, "grpc") {
        Some(OtlpProtocol::Grpc)
    } else {
        None
    }
}

fn decide(value: &Option<String>) -> (r: (Option<OtlpProtocol>, bool))
    ensures
        r.0 == decided(*value),
        r.1 == unrecognized(*value),
{
    match value {
        None => (None, false),
        Some(text) => if text.as_str().is_empty() {
            (None, false)
        } else {
            match parse_protocol(text.as_str()) {
                Some(protocol) => (Some(protocol), false),
                None => (None, true),
            }
        },
    }
}

fn warning_for(name: &str) -> (r: String)
    ensures
        r@ == protocol_warning(name@),
{
    let mut message = "ignoring unrecognized ".to_owned();
    message.append(name);
    message.append(" value; supported values are grpc and http/protobuf");
    message
}

/// Selects the protocol of an exporter from the value of the signal's own variable, named
/// `signal_name`, and of the generic one, and lists the warnings that are due.
pub fn otlp_protocol(
    signal_name: &str,
    specific: Option<String>,
    generic: Option<String>,
) -> (r: (OtlpProtocol, Vec<String>))
    ensures
        r.0 == selected_protocol(specific, generic),
        r.1@.len() == ignored_variables(signal_name@, specific, generic).len(),
        forall|i: int|
            0 <= i < r.1@.len() ==> (#[trigger] r.1@[i])@ == protocol_warning(
                ignored_variables(signal_name@, specific, generic)[i],
            ),
{
    let mut warnings: Vec<String> = Vec::new();
    let (first, ignored) = decide(&specific);
    if let Some(protocol) = first {
        return (protocol, warnings);
    }
    if ignored {
        warnings.push(warning_for(signal_name));
    }
    let (second, ignored_generic) = decide(&generic);
    if let Some(protocol) = second {
        return (protocol, warnings);
    }
    if ignored_generic {
        warnings.push(warning_for(OTEL_EXPORTER_OTLP_PROTOCOL));
    }
    (OtlpProtocol::HttpProtobuf, warnings)
}

/// Selects the protocol of an exporter with `get` looking variables up. The generic variable is
/// looked up only where the signal's own decides nothing.
pub fn protocol_from<F>(signal_name: &str, get: F) -> (r: OtlpProtocol) where
    F: Fn(&str) -> Option<String>,

    requires
        get.requires((signal_name,)),
        get.requires((OTEL_EXPORTER_OTLP_PROTOCOL,)),
    ensures
        exists|specific: Option<String>| #[trigger]
            get.ensures((signal_name,), specific) && (if decided(specific) is Some {
                r == decided(specific)->0
            } else {
                exists|generic: Option<String>| #[trigger]
                    get.ensures((OTEL_EXPORTER_OTLP_PROTOCOL,), generic) && r == selected_protocol(
                        specific,
                        generic,
                    )
            }),
{
    let specific = get(signal_name);
    if let Some(protocol) = decide(&specific).0 {
        return protocol;
    }
    let generic = get(OTEL_EXPORTER_OTLP_PROTOCOL);
    otlp_protocol(signal_name, specific, generic).0
}

/// Whether the value of the disabling variable disables the SDK.
pub open spec fn disables(value: Option<String>) -> bool {
    set_value(value) matches Some(text) && reads_as(text, "true"@)
}

/// Whether the value of the disabling variable is neither of the two valid ones.
pub open spec fn invalid_switch(value: Option<String>) -> bool {
    set_value(value) matches Some(text) && !reads_as(text, "true"@) && !reads_as(text, "false"@)
}

/// Decides whether the SDK is disabled, and gives the warning that an invalid value deserves.
pub fn sdk_disabled(value: Option<String>) -> (r: (bool, Option<&'static str>))
    ensures
        r.0 == disables(value),
        r.1 is Some <==> invalid_switch(value),
        r.1 matches Some(warning) ==> warning@
            == "ignoring invalid OTEL_SDK_DISABLED value; only true and false are valid"@,
{
    let text = match value {
        None => return (false, None),
        Some(text) => text,
    };
    if text.as_str().is_empty() {
        return (false, None);
    }
    if same_text_ignoring_case(text.as_str(), "true") {
        (true, None)
    } else if same_text_ignoring_case(text.as_str(), "false") {
        (false, None)
    } else {
        (false, Some("ignoring invalid OTEL_SDK_DISABLED value; only true and false are valid"))
    }
}

/// Decides whether the SDK is disabled with `get` looking the variable up.
pub fn sdk_disabled_from<F>(get: F) -> (r: bool) where F: Fn(&str) -> Option<String>,
    requires
        get.requires((OTEL_SDK_DISABLED,)),
    ensures
        exists|value: Option<String>| #[trigger]
            get.ensures((OTEL_SDK_DISABLED,), value) && r == disables(value),
{
    sdk_disabled(get(OTEL_SDK_DISABLED)).0
}

} // verus!
