//! Instrumentation scopes as the API asks for them.

use vstd::prelude::*;

use crate::abi::{AbiError, OtelStatus, OtelStringView};
use crate::error::{fail, fail_abi, ErrorState};
use crate::log_export::InstrumentationScope;
use crate::log_flatten::Value;

verus! {

/// The texts of a scope.
#[derive(Clone, Copy, Debug)]
pub struct OtelScopeConfig<'a> {
    pub name: OtelStringView<'a>,
    pub version: OtelStringView<'a>,
    pub schema_url: OtelStringView<'a>,
}

/// The first text of a scope that cannot be read, if one cannot.
pub open spec fn scope_text_fault(config: OtelScopeConfig) -> Option<AbiError> {
    match (config.name.text(), config.version.text(), config.schema_url.text()) {
        (Err(e), _, _) => Some(e),
        (_, Err(e), _) => Some(e),
        (_, _, Err(e)) => Some(e),
        _ => None,
    }
}

/// The part of a scope has this text, or is absent where the text is empty.
pub open spec fn optional_part(part: Option<String>, text: Seq<char>) -> bool {
    match part {
        Some(p) => text.len() > 0 && p@ == text,
        None => text.len() == 0,
    }
}

/// The scope has the texts of the configuration and no attributes.
pub open spec fn scope_texts(scope: InstrumentationScope, config: OtelScopeConfig) -> bool {
    &&& scope.name@ == config.name.text()->Ok_0
    &&& optional_part(scope.version, config.version.text()->Ok_0)
    &&& optional_part(scope.schema_url, config.schema_url.text()->Ok_0)
    &&& scope.attributes@.len() == 0
}

/// What reading the texts of a scope gives.
pub open spec fn scope_read(
    config: OtelScopeConfig,
    r: Option<InstrumentationScope>,
    before: ErrorState,
    after: ErrorState,
) -> bool {
    match scope_text_fault(config) {
        Some(e) => r is None && after.holds(e.spec_status(), e.spec_message()),
        None => r matches Some(scope) && scope_texts(scope, config) && after == before,
    }
}

fn read_part(errors: &mut ErrorState, view: OtelStringView) -> (r: Result<Option<String>, ()>)
    ensures
        match view.text() {
            Ok(text) => r matches Ok(part) && optional_part(part, text) && *final(errors) == *old(
                errors,
            ),
            Err(e) => r is Err && final(errors).holds(e.spec_status(), e.spec_message()),
        },
{
    match view.to_string_strict() {
        Ok(text) => if text.as_str().is_empty() {
            Ok(None)
        } else {
            Ok(Some(text))
        },
        Err(e) => {
            fail_abi(errors, e);
            Err(())
        },
    }
}

/// Reads the texts of a scope.
pub fn read_scope(errors: &mut ErrorState, config: &OtelScopeConfig) -> (r: Option<
    InstrumentationScope,
>)
    ensures
        scope_read(*config, r, *old(errors), *final(errors)),
{
    let name = match config.name.to_string_strict() {
        Ok(name) => name,
        Err(e) => {
            fail_abi(errors, e);
            return None;
        },
    };
    let version = match read_part(errors, config.version) {
        Ok(version) => version,
        Err(_) => return None,
    };
    let schema_url = match read_part(errors, config.schema_url) {
        Ok(schema_url) => schema_url,
        Err(_) => return None,
    };
    Some(InstrumentationScope { name, version, schema_url, attributes: Vec::new() })
}

/// Gives a scope the attributes that were collected for it; a failed collection, which recorded
/// its own diagnostic, leaves no scope.
pub fn with_scope_attributes(
    scope: InstrumentationScope,
    attributes: Result<Vec<(String, Value)>, OtelStatus>,
) -> (r: Option<InstrumentationScope>)
    ensures
        match attributes {
            Ok(a) => r == Some(InstrumentationScope { attributes: a, ..scope }),
            Err(_) => r is None,
        },
{
    match attributes {
        Ok(attributes) => Some(InstrumentationScope { attributes, ..scope }),
        Err(_) => None,
    }
}

/// The scope of a logger; its attributes are still to be collected.
pub fn build_logger(errors: &mut ErrorState, provider_present: bool, scope: &OtelScopeConfig) -> (r:
    Option<InstrumentationScope>)
    ensures
        !provider_present ==> r is None && final(errors).holds(
            OtelStatus::InvalidArgument,
            "logs provider context is NULL"@,
        ),
        provider_present ==> scope_read(*scope, r, *old(errors), *final(errors)),
{
    if !provider_present {
        fail(errors, OtelStatus::InvalidArgument, "logs provider context is NULL");
        return None;
    }
    read_scope(errors, scope)
}

/// The scope of a logger that the API asks for.
pub fn provider_get_logger(
    errors: &mut ErrorState,
    provider_present: bool,
    scope: Option<&OtelScopeConfig>,
) -> (r: Option<InstrumentationScope>)
    ensures
        match scope {
            None => r is None && final(errors).holds(
                OtelStatus::InvalidArgument,
                "logs scope configuration is NULL"@,
            ),
            Some(config) => if provider_present {
                scope_read(*config, r, *old(errors), *final(errors))
            } else {
                r is None && final(errors).holds(
                    OtelStatus::InvalidArgument,
                    "logs provider context is NULL"@,
                )
            },
        },
{
    match scope {
        None => {
            fail(errors, OtelStatus::InvalidArgument, "logs scope configuration is NULL");
            None
        },
        Some(config) => build_logger(errors, provider_present, config),
    }
}

/// The scope of a meter; its attributes are still to be collected. Without a provider there is
/// none, and nothing is recorded.
pub fn build_meter(errors: &mut ErrorState, provider_present: bool, scope: &OtelScopeConfig) -> (r:
    Option<InstrumentationScope>)
    ensures
        !provider_present ==> r is None && *final(errors) == *old(errors),
        provider_present ==> scope_read(*scope, r, *old(errors), *final(errors)),
{
    if !provider_present {
        return None;
    }
    read_scope(errors, scope)
}

/// The scope of a meter without attributes that the API asks for.
pub fn provider_get_meter(
    errors: &mut ErrorState,
    provider_present: bool,
    name: OtelStringView,
    version: OtelStringView,
    schema_url: OtelStringView,
) -> (r: Option<InstrumentationScope>)
    ensures
        !provider_present ==> r is None && *final(errors) == *old(errors),
        provider_present ==> scope_read(
            (OtelScopeConfig { name, version, schema_url }),
            r,
            *old(errors),
            *final(errors),
        ),
{
    build_meter(errors, provider_present, &OtelScopeConfig { name, version, schema_url })
}

/// The scope of a meter that the API asks for.
pub fn provider_get_meter_with_scope(
    errors: &mut ErrorState,
    provider_present: bool,
    scope: Option<&OtelScopeConfig>,
) -> (r: Option<InstrumentationScope>)
    ensures
        match scope {
            None => r is None && final(errors).holds(
                OtelStatus::InvalidArgument,
                "metric scope config must not be NULL"@,
            ),
            Some(config) => if provider_present {
                scope_read(*config, r, *old(errors), *final(errors))
            } else {
                r is None && *final(errors) == *old(errors)
            },
        },
{
    match scope {
        None => {
            fail(errors, OtelStatus::InvalidArgument, "metric scope config must not be NULL");
            None
        },
        Some(config) => build_meter(errors, provider_present, config),
    }
}

} // verus!
