//! Metrics instruments: what their creation, their recording and their binding decide.
//!
//! The caller owns the real instruments; here they are known by their kind.

use vstd::prelude::*;

use crate::abi::{text_fault, OtelArrayView, OtelStatus, OtelStringView};
use crate::error::{fail, fail_abi, last_status_or, reset_last_status, ErrorState};
use crate::metric_data::NumberKind;
use crate::metric_kind::{number_kind_code, number_kind_from_u32, OtelMetricInstrumentKind};
use crate::scope::optional_part;

verus! {

/// What the API asks an instrument to be. Boundaries are doubles held by their bit patterns;
/// callbacks and their state are known by their addresses, with zero for a NULL state.
#[derive(Clone, Copy, Debug)]
pub struct OtelMetricInstrumentConfig<'a> {
    pub kind: u32,
    pub number: u32,
    pub name: OtelStringView<'a>,
    pub description: OtelStringView<'a>,
    pub unit: OtelStringView<'a>,
    pub boundaries: OtelArrayView<'a, u64>,
    pub callback: Option<usize>,
    pub callback_state: usize,
    pub callback_state_free: Option<usize>,
}

/// The duty to release a callback state exactly once.
#[derive(Debug, PartialEq, Eq)]
pub struct CallbackLease {
    pub state: usize,
    pub release: usize,
}

/// An instrument that is to be created. An absent description or unit is not set.
#[derive(Debug)]
pub struct InstrumentPlan {
    pub kind: OtelMetricInstrumentKind,
    pub number: NumberKind,
    pub name: String,
    pub description: Option<String>,
    pub unit: Option<String>,
    /// Only a histogram looks at them.
    pub boundaries: Option<Vec<u64>>,
    /// The callback of an observable instrument with the state that moves into it.
    pub observable: Option<(usize, CallbackLease)>,
}

/// The kinds of created instruments.
#[derive(Clone, Copy, Debug, PartialEq, Eq, Structural)]
pub enum SdkMetricInstrument {
    CounterU64,
    CounterF64,
    UpDownCounterI64,
    UpDownCounterF64,
    GaugeU64,
    GaugeI64,
    GaugeF64,
    HistogramU64,
    HistogramF64,
    Observable,
}

/// The kinds of bound instruments.
#[derive(Clone, Copy, Debug, PartialEq, Eq, Structural)]
pub enum SdkBoundMetricInstrument {
    CounterU64,
    CounterF64,
    HistogramU64,
    HistogramF64,
}

/// What recording does to an instrument.
#[derive(Clone, Copy, Debug, PartialEq, Eq, Structural)]
pub enum RecordOperation {
    Add,
    Record,
}

/// The instrument takes its values from a callback.
pub open spec fn is_observable(kind: OtelMetricInstrumentKind) -> bool {
    kind == OtelMetricInstrumentKind::ObservableCounter || kind
        == OtelMetricInstrumentKind::ObservableUpDownCounter || kind
        == OtelMetricInstrumentKind::ObservableGauge
}

/// The instrument that a kind and a numeric type make, if they make one: counters and histograms
/// do not go below zero, up-down counters do, and gauges take every number.
pub open spec fn instrument_of(kind: OtelMetricInstrumentKind, number: NumberKind) -> Option<
    SdkMetricInstrument,
> {
    match (kind, number) {
        (OtelMetricInstrumentKind::Counter, NumberKind::U64) => Some(
            SdkMetricInstrument::CounterU64,
        ),
        (OtelMetricInstrumentKind::Counter, NumberKind::F64) => Some(
            SdkMetricInstrument::CounterF64,
        ),
        (OtelMetricInstrumentKind::UpDownCounter, NumberKind::I64) => Some(
            SdkMetricInstrument::UpDownCounterI64,
        ),
        (OtelMetricInstrumentKind::UpDownCounter, NumberKind::F64) => Some(
            SdkMetricInstrument::UpDownCounterF64,
        ),
        (OtelMetricInstrumentKind::Gauge, NumberKind::U64) => Some(SdkMetricInstrument::GaugeU64),
        (OtelMetricInstrumentKind::Gauge, NumberKind::I64) => Some(SdkMetricInstrument::GaugeI64),
        (OtelMetricInstrumentKind::Gauge, NumberKind::F64) => Some(SdkMetricInstrument::GaugeF64),
        (OtelMetricInstrumentKind::Histogram, NumberKind::U64) => Some(
            SdkMetricInstrument::HistogramU64,
        ),
        (OtelMetricInstrumentKind::Histogram, NumberKind::F64) => Some(
            SdkMetricInstrument::HistogramF64,
        ),
        (OtelMetricInstrumentKind::ObservableCounter, NumberKind::U64) => Some(
            SdkMetricInstrument::Observable,
        ),
        (OtelMetricInstrumentKind::ObservableCounter, NumberKind::F64) => Some(
            SdkMetricInstrument::Observable,
        ),
        (OtelMetricInstrumentKind::ObservableUpDownCounter, NumberKind::I64) => Some(
            SdkMetricInstrument::Observable,
        ),
        (OtelMetricInstrumentKind::ObservableUpDownCounter, NumberKind::F64) => Some(
            SdkMetricInstrument::Observable,
        ),
        (OtelMetricInstrumentKind::ObservableGauge, _) => Some(SdkMetricInstrument::Observable),
        _ => None,
    }
}

/// The instrument that a kind and a numeric type make, if they make one.
pub fn instrument_for(kind: OtelMetricInstrumentKind, number: NumberKind) -> (r: Option<
    SdkMetricInstrument,
>)
    ensures
        r == instrument_of(kind, number),
{
    match (kind, number) {
        (OtelMetricInstrumentKind::Counter, NumberKind::U64) => Some(
            SdkMetricInstrument::CounterU64,
        ),
        (OtelMetricInstrumentKind::Counter, NumberKind::F64) => Some(
            SdkMetricInstrument::CounterF64,
        ),
        (OtelMetricInstrumentKind::UpDownCounter, NumberKind::I64) => Some(
            SdkMetricInstrument::UpDownCounterI64,
        ),
        (OtelMetricInstrumentKind::UpDownCounter, NumberKind::F64) => Some(
            SdkMetricInstrument::UpDownCounterF64,
        ),
        (OtelMetricInstrumentKind::Gauge, NumberKind::U64) => Some(SdkMetricInstrument::GaugeU64),
        (OtelMetricInstrumentKind::Gauge, NumberKind::I64) => Some(SdkMetricInstrument::GaugeI64),
        (OtelMetricInstrumentKind::Gauge, NumberKind::F64) => Some(SdkMetricInstrument::GaugeF64),
        (OtelMetricInstrumentKind::Histogram, NumberKind::U64) => Some(
            SdkMetricInstrument::HistogramU64,
        ),
        (OtelMetricInstrumentKind::Histogram, NumberKind::F64) => Some(
            SdkMetricInstrument::HistogramF64,
        ),
        (OtelMetricInstrumentKind::ObservableCounter, NumberKind::U64) => Some(
            SdkMetricInstrument::Observable,
        ),
        (OtelMetricInstrumentKind::ObservableCounter, NumberKind::F64) => Some(
            SdkMetricInstrument::Observable,
        ),
        (OtelMetricInstrumentKind::ObservableUpDownCounter, NumberKind::I64) => Some(
            SdkMetricInstrument::Observable,
        ),
        (OtelMetricInstrumentKind::ObservableUpDownCounter, NumberKind::F64) => Some(
            SdkMetricInstrument::Observable,
        ),
        (OtelMetricInstrumentKind::ObservableGauge, _) => Some(SdkMetricInstrument::Observable),
        _ => None,
    }
}

/// The lease that a configuration hands over, or why it cannot: a state and its release function
/// come together or not at all.
pub open spec fn lease_of(config: OtelMetricInstrumentConfig) -> Result<
    Option<CallbackLease>,
    Seq<char>,
> {
    match config.callback_state_free {
        None => if config.callback_state == 0 {
            Ok(None)
        } else {
            Err("observable callback state release function is NULL"@)
        },
        Some(release) => if config.callback_state == 0 {
            Err("observable callback state is NULL"@)
        } else {
            Ok(Some(CallbackLease { state: config.callback_state, release }))
        },
    }
}

/// Takes over the callback state of a configuration.
pub fn callback_lease(errors: &mut ErrorState, config: &OtelMetricInstrumentConfig) -> (r: Result<
    Option<CallbackLease>,
    OtelStatus,
>)
    ensures
        match lease_of(*config) {
            Ok(lease) => r == Ok::<Option<CallbackLease>, OtelStatus>(lease) && *final(errors)
                == *old(errors),
            Err(message) => {
                &&& r matches Err(status)
                &&& status == OtelStatus::InvalidArgument
                &&& final(errors).holds(OtelStatus::InvalidArgument, message)
            },
        },
{
    let release: usize = match config.callback_state_free {
        None => {
            if config.callback_state == 0 {
                return Ok(None);
            }
            return Err(
                fail(
                    errors,
                    OtelStatus::InvalidArgument,
                    "observable callback state release function is NULL",
                ),
            );
        },
        Some(release) => release,
    };
    if config.callback_state == 0 {
        return Err(
            fail(errors, OtelStatus::InvalidArgument, "observable callback state is NULL"),
        );
    }
    Ok(Some(CallbackLease { state: config.callback_state, release }))
}

/// Takes what an observable instrument needs: its callback and the lease on its state.
pub fn observable_parts(
    errors: &mut ErrorState,
    config: &OtelMetricInstrumentConfig,
    lease: &mut Option<CallbackLease>,
) -> (r: Result<(usize, CallbackLease), OtelStatus>)
    ensures
        if config.callback is None {
            &&& r matches Err(status)
            &&& status == OtelStatus::InvalidArgument
            &&& final(errors).holds(OtelStatus::InvalidArgument, "observable callback is NULL"@)
            &&& *final(lease) == *old(lease)
        } else if *old(lease) is None {
            &&& r matches Err(status)
            &&& status == OtelStatus::InvalidArgument
            &&& final(errors).holds(
                OtelStatus::InvalidArgument,
                "observable callback state is missing"@,
            )
            &&& *final(lease) is None
        } else {
            &&& r matches Ok(parts)
            &&& parts.0 == config.callback->0
            &&& parts.1 == (*old(lease))->0
            &&& *final(lease) is None
            &&& *final(errors) == *old(errors)
        },
{
    let callback: usize = match config.callback {
        Some(callback) => callback,
        None => return Err(
            fail(errors, OtelStatus::InvalidArgument, "observable callback is NULL"),
        ),
    };
    match lease.take() {
        Some(lease) => Ok((callback, lease)),
        None => Err(
            fail(errors, OtelStatus::InvalidArgument, "observable callback state is missing"),
        ),
    }
}

/// The kind that a code stands for, assuming that it stands for one.
pub open spec fn kind_of(code: u32) -> OtelMetricInstrumentKind {
    choose|kind: OtelMetricInstrumentKind| #[trigger] kind.spec_code() == code
}

/// The numeric type that a code stands for, assuming that it stands for one.
pub open spec fn number_of_code(code: u32) -> NumberKind {
    choose|kind: NumberKind| #[trigger] number_kind_code(kind) == code
}

proof fn lemma_kind(kind: OtelMetricInstrumentKind)
    ensures
        kind_of(kind.spec_code()) == kind,
{
    let chosen = kind_of(kind.spec_code());
    assert(chosen.spec_code() == kind.spec_code());
}

proof fn lemma_number(kind: NumberKind)
    ensures
        number_of_code(number_kind_code(kind)) == kind,
{
    let chosen = number_of_code(number_kind_code(kind));
    assert(number_kind_code(chosen) == number_kind_code(kind));
}

/// Why a configuration that can be looked at makes no instrument, if it makes none. The lease is
/// known to be in order.
pub open spec fn config_fault(meter_present: bool, config: OtelMetricInstrumentConfig) -> Option<
    (OtelStatus, Seq<char>),
> {
    if !meter_present {
        Some(
            (
                OtelStatus::InvalidArgument,
                "metric instrument creation received a NULL meter context"@,
            ),
        )
    } else if config.kind > 6 {
        Some((OtelStatus::InvalidArgument, "unknown metric instrument kind"@))
    } else if config.number > 2 {
        Some((OtelStatus::InvalidArgument, "unknown metric number kind"@))
    } else if text_fault(config.name.text()) is Some {
        text_fault(config.name.text())
    } else if text_fault(config.description.text()) is Some {
        text_fault(config.description.text())
    } else if text_fault(config.unit.text()) is Some {
        text_fault(config.unit.text())
    } else if config.boundaries.spec_is_dangling() {
        Some((OtelStatus::InvalidArgument, "histogram boundaries are NULL with non-zero count"@))
    } else if instrument_of(kind_of(config.kind), number_of_code(config.number)) is None {
        Some(
            (OtelStatus::InvalidConfig, "unsupported metric instrument kind and number combination"@),
        )
    } else if is_observable(kind_of(config.kind)) && config.callback is None {
        Some((OtelStatus::InvalidArgument, "observable callback is NULL"@))
    } else if is_observable(kind_of(config.kind)) && lease_of(config) == Ok::<
        Option<CallbackLease>,
        Seq<char>,
    >(None) {
        Some((OtelStatus::InvalidArgument, "observable callback state is missing"@))
    } else {
        None
    }
}

/// Why no instrument is created, if none is.
pub open spec fn creation_fault(
    meter_present: bool,
    config: Option<OtelMetricInstrumentConfig>,
) -> Option<(OtelStatus, Seq<char>)> {
    match config {
        None => Some(
            (
                OtelStatus::InvalidArgument,
                "metric instrument creation received a NULL config"@,
            ),
        ),
        Some(config) => match lease_of(config) {
            Err(message) => Some((OtelStatus::InvalidArgument, message)),
            Ok(_) => config_fault(meter_present, config),
        },
    }
}

/// The plan is for the instrument of this configuration.
pub open spec fn plans(plan: InstrumentPlan, config: OtelMetricInstrumentConfig) -> bool {
    &&& plan.kind == kind_of(config.kind)
    &&& plan.number == number_of_code(config.number)
    &&& plan.name@ == config.name.text()->Ok_0
    &&& optional_part(plan.description, config.description.text()->Ok_0)
    &&& optional_part(plan.unit, config.unit.text()->Ok_0)
    &&& match plan.boundaries {
        Some(boundaries) => config.boundaries.spec_count() > 0 && boundaries@
            == config.boundaries.items(),
        None => config.boundaries.spec_count() == 0,
    }
    &&& if is_observable(plan.kind) {
        plan.observable == Some((config.callback->0, (lease_of(config)->Ok_0)->0))
    } else {
        plan.observable is None
    }
}

/// What asking for an instrument comes to: a plan or a status, and the callback state that is to
/// be released now, if there is one.
#[derive(Debug)]
pub struct Creation {
    pub outcome: Result<InstrumentPlan, OtelStatus>,
    pub released: Option<CallbackLease>,
}

/// The lease that a configuration hands over, if it hands one over.
pub open spec fn handed_over(config: Option<OtelMetricInstrumentConfig>) -> Option<CallbackLease> {
    match config {
        Some(config) => match lease_of(config) {
            Ok(lease) => lease,
            Err(_) => None,
        },
        None => None,
    }
}

fn copy_boundaries(boundaries: &OtelArrayView<u64>) -> (r: Option<Vec<u64>>)
    requires
        !boundaries.spec_is_dangling(),
    ensures
        match r {
            Some(copy) => boundaries.spec_count() > 0 && copy@ == boundaries.items(),
            None => boundaries.spec_count() == 0,
        },
{
    let items = match boundaries {
        OtelArrayView::Null(_) => return None,
        OtelArrayView::Data(items) => *items,
    };
    if items.len() == 0 {
        return None;
    }
    let mut copy: Vec<u64> = Vec::new();
    let mut i: usize = 0;
    while i < items.len()
        invariant
            i <= items@.len(),
            copy@ == items@.take(i as int),
        decreases items@.len() - i,
    {
        copy.push(items[i]);
        assert(items@.take(i + 1) =~= items@.take(i as int).push(items@[i as int]));
        i += 1;
    }
    assert(items@.take(items@.len() as int) =~= items@);
    Some(copy)
}

fn nonempty(text: String) -> (r: Option<String>)
    ensures
        optional_part(r, text@),
{
    if text.as_str().is_empty() {
        None
    } else {
        Some(text)
    }
}

/// Plans the instrument of a configuration whose lease was taken over.
fn plan_instrument(
    errors: &mut ErrorState,
    meter_present: bool,
    config: &OtelMetricInstrumentConfig,
    lease: &mut Option<CallbackLease>,
) -> (r: Result<InstrumentPlan, OtelStatus>)
    requires
        lease_of(*config) == Ok::<Option<CallbackLease>, Seq<char>>(*old(lease)),
    ensures
        match config_fault(meter_present, *config) {
            Some((status, message)) => {
                &&& r matches Err(s)
                &&& s == status
                &&& final(errors).holds(status, message)
                &&& *final(lease) == *old(lease)
            },
            None => {
                &&& r matches Ok(plan)
                &&& plans(plan, *config)
                &&& *final(errors) == *old(errors)
                &&& *final(lease) == (if is_observable(kind_of(config.kind)) {
                    None
                } else {
                    *old(lease)
                })
            },
        },
{
    if !meter_present {
        return Err(
            fail(
                errors,
                OtelStatus::InvalidArgument,
                "metric instrument creation received a NULL meter context",
            ),
        );
    }
    let kind = match OtelMetricInstrumentKind::from_u32(config.kind) {
        Some(kind) => kind,
        None => return Err(
            fail(errors, OtelStatus::InvalidArgument, "unknown metric instrument kind"),
        ),
    };
    let number = match number_kind_from_u32(config.number) {
        Some(number) => number,
        None => return Err(fail(errors, OtelStatus::InvalidArgument, "unknown metric number kind")),
    };
    proof {
        lemma_kind(kind);
        lemma_number(number);
    }
    let name = match config.name.to_string_strict() {
        Ok(name) => name,
        Err(e) => return Err(fail_abi(errors, e)),
    };
    let description = match config.description.to_string_strict() {
        Ok(description) => description,
        Err(e) => return Err(fail_abi(errors, e)),
    };
    let unit = match config.unit.to_string_strict() {
        Ok(unit) => unit,
        Err(e) => return Err(fail_abi(errors, e)),
    };
    if config.boundaries.is_dangling() {
        return Err(
            fail(
                errors,
                OtelStatus::InvalidArgument,
                "histogram boundaries are NULL with non-zero count",
            ),
        );
    }
    let boundaries = copy_boundaries(&config.boundaries);
    let observable = match instrument_for(kind, number) {
        None => return Err(
            fail(
                errors,
                OtelStatus::InvalidConfig,
                "unsupported metric instrument kind and number combination",
            ),
        ),
        Some(SdkMetricInstrument::Observable) => match observable_parts(errors, config, lease) {
            Ok(parts) => Some(parts),
            Err(status) => return Err(status),
        },
        Some(_) => None,
    };
    Ok(
        InstrumentPlan {
            kind,
            number,
            name,
            description: nonempty(description),
            unit: nonempty(unit),
            boundaries,
            observable,
        },
    )
}

/// Decides which instrument the API asks a meter for. The callback state of the configuration is
/// taken over on entry: it moves into an observable instrument or is released.
pub fn meter_create_instrument_with_status(
    errors: &mut ErrorState,
    meter_present: bool,
    config: Option<&OtelMetricInstrumentConfig>,
) -> (r: Creation)
    ensures
        ({
            let asked = match config {
                Some(c) => Some(*c),
                None => None,
            };
            match creation_fault(meter_present, asked) {
                Some((status, message)) => {
                    &&& r.outcome matches Err(s)
                    &&& s == status
                    &&& final(errors).holds(status, message)
                    &&& r.released == handed_over(asked)
                },
                None => {
                    &&& r.outcome matches Ok(plan)
                    &&& plans(plan, asked->0)
                    &&& final(errors).holds(OtelStatus::Success, old(errors).message@)
                    &&& r.released == (if is_observable(plan.kind) {
                        None
                    } else {
                        handed_over(asked)
                    })
                },
            }
        }),
{
    reset_last_status(errors);
    let config = match config {
        Some(config) => config,
        None => {
            fail(
                errors,
                OtelStatus::InvalidArgument,
                "metric instrument creation received a NULL config",
            );
            return Creation {
                outcome: Err(last_status_or(errors, OtelStatus::InvalidConfig)),
                released: None,
            };
        },
    };
    let mut lease = match callback_lease(errors, config) {
        Ok(lease) => lease,
        Err(_) => return Creation {
            outcome: Err(last_status_or(errors, OtelStatus::InvalidConfig)),
            released: None,
        },
    };
    match plan_instrument(errors, meter_present, config, &mut lease) {
        Ok(plan) => Creation { outcome: Ok(plan), released: lease },
        Err(_) => Creation {
            outcome: Err(last_status_or(errors, OtelStatus::InvalidConfig)),
            released: lease,
        },
    }
}

/// Records that creating a planned instrument panicked.
pub fn creation_panicked(errors: &mut ErrorState) -> (r: OtelStatus)
    ensures
        r == OtelStatus::InternalError,
        final(errors).holds(OtelStatus::InternalError, "metric instrument creation panicked"@),
{
    fail(errors, OtelStatus::InternalError, "metric instrument creation panicked")
}

/// A callback state that was handed over has exactly one owner afterwards: the planned instrument
/// or the release that is due now.
pub proof fn callback_state_has_one_owner(
    meter_present: bool,
    config: OtelMetricInstrumentConfig,
    creation: Creation,
    lease: CallbackLease,
)
    requires
        lease_of(config) == Ok::<Option<CallbackLease>, Seq<char>>(Some(lease)),
        match creation_fault(meter_present, Some(config)) {
            Some(_) => creation.outcome is Err && creation.released == handed_over(Some(config)),
            None => {
                &&& creation.outcome matches Ok(plan)
                &&& plans(plan, config)
                &&& creation.released == (if is_observable(plan.kind) {
                    None
                } else {
                    handed_over(Some(config))
                })
            },
        },
    ensures
        creation.released is None || creation.released == Some(lease),
        creation.released is Some <==> !(creation.outcome matches Ok(plan) && plan.observable
            is Some),
        creation.outcome matches Ok(plan) ==> plan.observable matches Some((_, moved)) ==> moved
            == lease,
{
}

/// What recording a number does to an instrument, if the instrument takes such numbers.
pub open spec fn operation_for(instrument: SdkMetricInstrument, number: NumberKind) -> Option<
    RecordOperation,
> {
    match (instrument, number) {
        (SdkMetricInstrument::CounterU64, NumberKind::U64) => Some(RecordOperation::Add),
        (SdkMetricInstrument::GaugeU64, NumberKind::U64) => Some(RecordOperation::Record),
        (SdkMetricInstrument::HistogramU64, NumberKind::U64) => Some(RecordOperation::Record),
        (SdkMetricInstrument::UpDownCounterI64, NumberKind::I64) => Some(RecordOperation::Add),
        (SdkMetricInstrument::GaugeI64, NumberKind::I64) => Some(RecordOperation::Record),
        (SdkMetricInstrument::CounterF64, NumberKind::F64) => Some(RecordOperation::Add),
        (SdkMetricInstrument::UpDownCounterF64, NumberKind::F64) => Some(RecordOperation::Add),
        (SdkMetricInstrument::GaugeF64, NumberKind::F64) => Some(RecordOperation::Record),
        (SdkMetricInstrument::HistogramF64, NumberKind::F64) => Some(RecordOperation::Record),
        _ => None,
    }
}

/// Decides what recording a number does. `attributes` is the status of a failed collection of
/// attributes, which recorded its own diagnostic.
pub fn instrument_record(
    errors: &mut ErrorState,
    instrument: Option<SdkMetricInstrument>,
    number: NumberKind,
    attributes: Result<(), OtelStatus>,
) -> (r: Result<RecordOperation, OtelStatus>)
    ensures
        match instrument {
            None => {
                &&& r == Err::<RecordOperation, OtelStatus>(OtelStatus::InvalidArgument)
                &&& final(errors).holds(
                    OtelStatus::InvalidArgument,
                    "metric instrument context is NULL"@,
                )
            },
            Some(i) => match attributes {
                Err(status) => r == Err::<RecordOperation, OtelStatus>(status) && *final(errors)
                    == *old(errors),
                Ok(_) => match operation_for(i, number) {
                    Some(operation) => r == Ok::<RecordOperation, OtelStatus>(operation)
                        && *final(errors) == *old(errors),
                    None => {
                        &&& r == Err::<RecordOperation, OtelStatus>(OtelStatus::InvalidArgument)
                        &&& final(errors).holds(
                            OtelStatus::InvalidArgument,
                            "metric operation does not match the instrument numeric type"@,
                        )
                    },
                },
            },
        },
{
    let instrument = match instrument {
        Some(instrument) => instrument,
        None => return Err(
            fail(errors, OtelStatus::InvalidArgument, "metric instrument context is NULL"),
        ),
    };
    if let Err(status) = attributes {
        return Err(status);
    }
    match (instrument, number) {
        (SdkMetricInstrument::CounterU64, NumberKind::U64) => Ok(RecordOperation::Add),
        (SdkMetricInstrument::GaugeU64, NumberKind::U64) => Ok(RecordOperation::Record),
        (SdkMetricInstrument::HistogramU64, NumberKind::U64) => Ok(RecordOperation::Record),
        (SdkMetricInstrument::UpDownCounterI64, NumberKind::I64) => Ok(RecordOperation::Add),
        (SdkMetricInstrument::GaugeI64, NumberKind::I64) => Ok(RecordOperation::Record),
        (SdkMetricInstrument::CounterF64, NumberKind::F64) => Ok(RecordOperation::Add),
        (SdkMetricInstrument::UpDownCounterF64, NumberKind::F64) => Ok(RecordOperation::Add),
        (SdkMetricInstrument::GaugeF64, NumberKind::F64) => Ok(RecordOperation::Record),
        (SdkMetricInstrument::HistogramF64, NumberKind::F64) => Ok(RecordOperation::Record),
        _ => Err(
            fail(
                errors,
                OtelStatus::InvalidArgument,
                "metric operation does not match the instrument numeric type",
            ),
        ),
    }
}

/// Decides whether an observation reaches its observer. `attributes` is the status of a failed
/// collection of attributes, which recorded its own diagnostic.
pub fn observer_observe(
    errors: &mut ErrorState,
    observer_present: bool,
    attributes: Result<(), OtelStatus>,
) -> (r: OtelStatus)
    ensures
        !observer_present ==> r == OtelStatus::InvalidArgument && final(errors).holds(
            OtelStatus::InvalidArgument,
            "observer context is NULL"@,
        ),
        observer_present ==> *final(errors) == *old(errors) && r == (match attributes {
            Ok(_) => OtelStatus::Success,
            Err(status) => status,
        }),
{
    if !observer_present {
        return fail(errors, OtelStatus::InvalidArgument, "observer context is NULL");
    }
    match attributes {
        Ok(_) => OtelStatus::Success,
        Err(status) => status,
    }
}

/// The bound form of an instrument, if it has one.
pub open spec fn bound_form(instrument: SdkMetricInstrument) -> Option<SdkBoundMetricInstrument> {
    match instrument {
        SdkMetricInstrument::CounterU64 => Some(SdkBoundMetricInstrument::CounterU64),
        SdkMetricInstrument::CounterF64 => Some(SdkBoundMetricInstrument::CounterF64),
        SdkMetricInstrument::HistogramU64 => Some(SdkBoundMetricInstrument::HistogramU64),
        SdkMetricInstrument::HistogramF64 => Some(SdkBoundMetricInstrument::HistogramF64),
        _ => None,
    }
}

/// Why an instrument is not bound, if it is not: the status that goes out, and the diagnostic
/// where one is recorded.
pub open spec fn bind_fault(
    instrument: Option<SdkMetricInstrument>,
    attributes: Result<(), OtelStatus>,
) -> Option<(OtelStatus, Option<Seq<char>>)> {
    match instrument {
        None => Some((OtelStatus::InvalidArgument, Some("metric instrument context is NULL"@))),
        Some(i) => match attributes {
            Err(status) => Some((status, None)),
            Ok(_) => if bound_form(i) is None {
                Some(
                    (
                        OtelStatus::InvalidArgument,
                        Some("instrument kind does not support bound instruments"@),
                    ),
                )
            } else {
                None
            },
        },
    }
}

/// Decides how an instrument is bound to attributes. `attributes` is the status of a failed
/// collection of attributes, which recorded its own diagnostic.
pub fn instrument_bind(
    errors: &mut ErrorState,
    instrument: Option<SdkMetricInstrument>,
    attributes: Result<(), OtelStatus>,
    out_status: Option<&mut OtelStatus>,
) -> (r: Option<SdkBoundMetricInstrument>)
    ensures
        match out_status {
            None => r is None && final(errors).holds(
                OtelStatus::InvalidArgument,
                "bound instrument status pointer is NULL"@,
            ),
            Some(slot) => match bind_fault(instrument, attributes) {
                Some((status, message)) => {
                    &&& r is None
                    &&& *final(slot) == status
                    &&& match message {
                        Some(m) => final(errors).holds(OtelStatus::InvalidArgument, m),
                        None => *final(errors) == *old(errors),
                    }
                },
                None => {
                    &&& r == bound_form(instrument->0)
                    &&& *final(slot) == OtelStatus::Success
                    &&& *final(errors) == *old(errors)
                },
            },
        },
{
    let slot = match out_status {
        Some(slot) => slot,
        None => {
            fail(errors, OtelStatus::InvalidArgument, "bound instrument status pointer is NULL");
            return None;
        },
    };
    *slot = OtelStatus::Success;
    let instrument = match instrument {
        Some(instrument) => instrument,
        None => {
            *slot = OtelStatus::InvalidArgument;
            fail(errors, OtelStatus::InvalidArgument, "metric instrument context is NULL");
            return None;
        },
    };
    if let Err(status) = attributes {
        *slot = status;
        return None;
    }
    match instrument {
        SdkMetricInstrument::CounterU64 => Some(SdkBoundMetricInstrument::CounterU64),
        SdkMetricInstrument::CounterF64 => Some(SdkBoundMetricInstrument::CounterF64),
        SdkMetricInstrument::HistogramU64 => Some(SdkBoundMetricInstrument::HistogramU64),
        SdkMetricInstrument::HistogramF64 => Some(SdkBoundMetricInstrument::HistogramF64),
        _ => {
            *slot = OtelStatus::InvalidArgument;
            fail(
                errors,
                OtelStatus::InvalidArgument,
                "instrument kind does not support bound instruments",
            );
            None
        },
    }
}

/// Records that binding an instrument panicked.
pub fn binding_panicked(errors: &mut ErrorState) -> (r: OtelStatus)
    ensures
        r == OtelStatus::InternalError,
        final(errors).holds(OtelStatus::InternalError, "panic while binding metric instrument"@),
{
    fail(errors, OtelStatus::InternalError, "panic while binding metric instrument")
}

/// What recording a number does to a bound instrument, if the instrument takes such numbers.
pub open spec fn bound_operation_for(
    instrument: SdkBoundMetricInstrument,
    number: NumberKind,
) -> Option<RecordOperation> {
    match (instrument, number) {
        (SdkBoundMetricInstrument::CounterU64, NumberKind::U64) => Some(RecordOperation::Add),
        (SdkBoundMetricInstrument::HistogramU64, NumberKind::U64) => Some(RecordOperation::Record),
        (SdkBoundMetricInstrument::CounterF64, NumberKind::F64) => Some(RecordOperation::Add),
        (SdkBoundMetricInstrument::HistogramF64, NumberKind::F64) => Some(RecordOperation::Record),
        _ => None,
    }
}

/// Decides what recording a number on a bound instrument does.
pub fn bound_instrument_record(
    errors: &mut ErrorState,
    instrument: Option<SdkBoundMetricInstrument>,
    number: NumberKind,
) -> (r: Result<RecordOperation, OtelStatus>)
    ensures
        match instrument {
            None => {
                &&& r == Err::<RecordOperation, OtelStatus>(OtelStatus::InvalidArgument)
                &&& final(errors).holds(
                    OtelStatus::InvalidArgument,
                    "bound metric instrument context is NULL"@,
                )
            },
            Some(i) => match bound_operation_for(i, number) {
                Some(operation) => r == Ok::<RecordOperation, OtelStatus>(operation)
                    && *final(errors) == *old(errors),
                None => {
                    &&& r == Err::<RecordOperation, OtelStatus>(OtelStatus::InvalidArgument)
                    &&& final(errors).holds(
                        OtelStatus::InvalidArgument,
                        "bound metric operation does not match the instrument numeric type"@,
                    )
                },
            },
        },
{
    let instrument = match instrument {
        Some(instrument) => instrument,
        None => return Err(
            fail(errors, OtelStatus::InvalidArgument, "bound metric instrument context is NULL"),
        ),
    };
    match (instrument, number) {
        (SdkBoundMetricInstrument::CounterU64, NumberKind::U64) => Ok(RecordOperation::Add),
        (SdkBoundMetricInstrument::HistogramU64, NumberKind::U64) => Ok(RecordOperation::Record),
        (SdkBoundMetricInstrument::CounterF64, NumberKind::F64) => Ok(RecordOperation::Add),
        (SdkBoundMetricInstrument::HistogramF64, NumberKind::F64) => Ok(RecordOperation::Record),
        _ => Err(
            fail(
                errors,
                OtelStatus::InvalidArgument,
                "bound metric operation does not match the instrument numeric type",
            ),
        ),
    }
}

/// Every instrument that can be created and is not observable records numbers of its own type and
/// of no other, and a bound instrument records as the one it was bound from.
pub proof fn instruments_record_their_own_numbers(
    kind: OtelMetricInstrumentKind,
    number: NumberKind,
    recorded: NumberKind,
    instrument: SdkMetricInstrument,
)
    requires
        instrument_of(kind, number) == Some(instrument),
    ensures
        operation_for(instrument, recorded) is Some <==> recorded == number && !is_observable(kind),
        bound_form(instrument) matches Some(bound) ==> bound_operation_for(bound, recorded)
            == operation_for(instrument, recorded),
{
}

} // verus!
