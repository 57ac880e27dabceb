//! What asking for scopes and instruments comes to: the parts that were given are the parts of what
//! is made, and a number reaches only an instrument that takes such numbers.

use vstd::prelude::*;

use crate::abi::{OtelArrayView, OtelStatus, OtelStringView};
use crate::error::ErrorState;
use crate::log_export::InstrumentationScope;
use crate::log_flatten::Value;
use crate::metric_data::NumberKind;
use crate::metric_instrument::{
    bound_instrument_record, callback_lease, instrument_bind, instrument_for, instrument_record,
    meter_create_instrument_with_status, observable_parts, observer_observe, CallbackLease,
    Creation, InstrumentPlan, OtelMetricInstrumentConfig, RecordOperation,
    SdkBoundMetricInstrument, SdkMetricInstrument,
};
use crate::metric_kind::OtelMetricInstrumentKind;
use crate::metric_laws::reads;
use crate::scope::{
    build_logger, build_meter, provider_get_logger, provider_get_meter,
    provider_get_meter_with_scope, read_scope, with_scope_attributes, OtelScopeConfig,
};
use crate::view_laws::code_of;

verus! {

/// The code of a kind of number.
pub open spec fn number_code_of(number: NumberKind) -> u32 {
    match number {
        NumberKind::U64 => 0,
        NumberKind::I64 => 1,
        NumberKind::F64 => 2,
    }
}

/// The instrument is fed by a callback.
pub open spec fn observes(kind: OtelMetricInstrumentKind) -> bool {
    kind is ObservableCounter || kind is ObservableUpDownCounter || kind is ObservableGauge
}

/// There is an instrument of this kind for such numbers: counters and histograms take no signed
/// integers, up-down counters no unsigned ones, and gauges take all.
pub open spec fn combines(kind: OtelMetricInstrumentKind, number: NumberKind) -> bool {
    &&& kind is Counter || kind is Histogram || kind is ObservableCounter ==> !(number is I64)
    &&& kind is UpDownCounter || kind is ObservableUpDownCounter ==> !(number is U64)
}

/// The part has this text, or is absent where the text is empty.
pub open spec fn is_part(part: Option<String>, view: OtelStringView) -> bool {
    &&& view.text() is Ok
    &&& part is Some <==> view.text()->Ok_0.len() > 0
    &&& part matches Some(text) ==> text@ == view.text()->Ok_0
}

/// A state and its release function come together or not at all, and the lease is on both.
pub proof fn leases_need_state_and_release(
    errors: &mut ErrorState,
    config: &OtelMetricInstrumentConfig,
    r: Result<Option<CallbackLease>, OtelStatus>,
)
    requires
        call_ensures(callback_lease, (errors, config), r),
    ensures
        r is Ok <==> (config.callback_state != 0) == (config.callback_state_free is Some),
        r matches Ok(Some(lease)) ==> lease.state == config.callback_state && lease.state != 0
            && Some(lease.release) == config.callback_state_free,
        r matches Ok(None) ==> config.callback_state == 0 && config.callback_state_free is None,
        r matches Err(status) ==> status == OtelStatus::InvalidArgument,
{
}

/// An observable instrument takes its callback and the lease, which leaves its place, and takes
/// neither without the other.
pub proof fn observables_take_callback_and_lease(
    errors: &mut ErrorState,
    config: &OtelMetricInstrumentConfig,
    lease: &mut Option<CallbackLease>,
    r: Result<(usize, CallbackLease), OtelStatus>,
)
    requires
        call_ensures(observable_parts, (errors, config, lease), r),
    ensures
        r is Ok <==> config.callback is Some && *old(lease) is Some,
        r matches Ok((callback, taken)) ==> config.callback == Some(callback) && *old(lease) == Some(
            taken,
        ) && *final(lease) is None,
        r matches Err(status) ==> status == OtelStatus::InvalidArgument && *final(lease)
            == *old(lease),
{
}

/// A kind and a kind of number make an instrument exactly where they go together.
pub proof fn instruments_exist_for_their_numbers(
    kind: OtelMetricInstrumentKind,
    number: NumberKind,
    r: Option<SdkMetricInstrument>,
)
    requires
        call_ensures(instrument_for, (kind, number), r),
    ensures
        r is Some <==> combines(kind, number),
        r matches Some(instrument) ==> (instrument is Observable <==> observes(kind)),
        r matches Some(instrument) ==> (instrument is CounterU64 || instrument is CounterF64
            <==> kind is Counter),
        r matches Some(instrument) ==> (instrument is UpDownCounterI64
            || instrument is UpDownCounterF64 <==> kind is UpDownCounter),
        r matches Some(instrument) ==> (instrument is GaugeU64 || instrument is GaugeI64
            || instrument is GaugeF64 <==> kind is Gauge),
        r matches Some(instrument) ==> (instrument is HistogramU64 || instrument is HistogramF64
            <==> kind is Histogram),
        r matches Some(instrument) ==> (!observes(kind) ==> (instrument is CounterU64
            || instrument is GaugeU64 || instrument is HistogramU64 <==> number is U64)),
        r matches Some(instrument) ==> (!observes(kind) ==> (instrument is UpDownCounterI64
            || instrument is GaugeI64 <==> number is I64)),
{
}

/// A planned instrument has the kind, the numbers, the name, the description, the unit and the
/// boundaries that were asked for, and an observable one the callback and the state. A state that
/// does not move into the instrument is to be released, once.
pub proof fn planned_instruments_have_every_part(
    errors: &mut ErrorState,
    config: &OtelMetricInstrumentConfig,
    r: Creation,
    plan: InstrumentPlan,
)
    requires
        call_ensures(meter_create_instrument_with_status, (errors, true, Some(config)), r),
        r.outcome == Ok::<InstrumentPlan, OtelStatus>(plan),
    ensures
        code_of(plan.kind) == config.kind,
        number_code_of(plan.number) == config.number,
        combines(plan.kind, plan.number),
        reads(config.name, plan.name@),
        is_part(plan.description, config.description),
        is_part(plan.unit, config.unit),
        match config.boundaries {
            OtelArrayView::Null(_) => plan.boundaries is None,
            OtelArrayView::Data(items) => if items@.len() == 0 {
                plan.boundaries is None
            } else {
                plan.boundaries matches Some(kept) && kept@ == items@
            },
        },
        plan.observable is Some <==> observes(plan.kind),
        plan.observable matches Some((callback, lease)) ==> {
            &&& config.callback == Some(callback)
            &&& lease.state == config.callback_state
            &&& Some(lease.release) == config.callback_state_free
            &&& r.released is None
        },
        plan.observable is None ==> (r.released is Some <==> config.callback_state != 0),
        r.released matches Some(lease) ==> lease.state == config.callback_state && Some(
            lease.release,
        ) == config.callback_state_free,
{
    lemma_codes(config.kind, config.number);
}

/// The codes of a kind and a kind of number stand for one each.
proof fn lemma_codes(kind: u32, number: u32)
    ensures
        kind <= 6 ==> code_of(crate::metric_instrument::kind_of(kind)) == kind,
        number <= 2 ==> number_code_of(crate::metric_instrument::number_of_code(number)) == number,
{
    assert(OtelMetricInstrumentKind::Counter.spec_code() == 0);
    assert(OtelMetricInstrumentKind::UpDownCounter.spec_code() == 1);
    assert(OtelMetricInstrumentKind::Gauge.spec_code() == 2);
    assert(OtelMetricInstrumentKind::Histogram.spec_code() == 3);
    assert(OtelMetricInstrumentKind::ObservableCounter.spec_code() == 4);
    assert(OtelMetricInstrumentKind::ObservableUpDownCounter.spec_code() == 5);
    assert(OtelMetricInstrumentKind::ObservableGauge.spec_code() == 6);
    assert(crate::metric_kind::number_kind_code(NumberKind::U64) == 0);
    assert(crate::metric_kind::number_kind_code(NumberKind::I64) == 1);
    assert(crate::metric_kind::number_kind_code(NumberKind::F64) == 2);
}

/// An instrument is planned exactly where its codes are known and go together, its texts can be
/// read, its boundaries are not missing and, for an observable one, callback and state are there. A
/// state that was handed over with its release function is released where none is planned.
pub proof fn instrument_is_owed(
    errors: &mut ErrorState,
    config: &OtelMetricInstrumentConfig,
    kind: OtelMetricInstrumentKind,
    number: NumberKind,
    r: Creation,
)
    requires
        code_of(kind) == config.kind,
        number_code_of(number) == config.number,
        call_ensures(meter_create_instrument_with_status, (errors, true, Some(config)), r),
    ensures
        r.outcome is Ok <==> {
            &&& (config.callback_state != 0) == (config.callback_state_free is Some)
            &&& combines(kind, number)
            &&& config.name.text() is Ok
            &&& config.description.text() is Ok
            &&& config.unit.text() is Ok
            &&& config.boundaries matches OtelArrayView::Null(count) ==> count == 0
            &&& observes(kind) ==> config.callback is Some && config.callback_state != 0
        },
        r.outcome is Err && config.callback_state != 0 && config.callback_state_free is Some ==> (
        r.released matches Some(lease) && lease.state == config.callback_state && Some(lease.release)
            == config.callback_state_free),
        r.outcome matches Err(status) ==> status != OtelStatus::Success && final(errors).last_status
            == status,
        !combines(kind, number) && config.name.text() is Ok && config.description.text() is Ok
            && config.unit.text() is Ok && (config.callback_state != 0)
            == (config.callback_state_free is Some) && (
        config.boundaries matches OtelArrayView::Null(count) ==> count == 0) ==> r.outcome == Err::<
            InstrumentPlan,
            OtelStatus,
        >(OtelStatus::InvalidConfig),
{
    lemma_codes(config.kind, config.number);
}

/// Unknown codes, a missing meter and a missing configuration are the caller's mistake.
pub proof fn unknown_instruments_are_refused(
    errors: &mut ErrorState,
    meter_present: bool,
    config: Option<&OtelMetricInstrumentConfig>,
    r: Creation,
)
    requires
        call_ensures(meter_create_instrument_with_status, (errors, meter_present, config), r),
        !meter_present || config is None || config->0.kind > 6 || config->0.number > 2,
    ensures
        r.outcome == Err::<InstrumentPlan, OtelStatus>(OtelStatus::InvalidArgument),
{
}

/// The instrument takes such numbers.
pub open spec fn takes(instrument: SdkMetricInstrument, number: NumberKind) -> bool {
    match number {
        NumberKind::U64 => instrument is CounterU64 || instrument is GaugeU64
            || instrument is HistogramU64,
        NumberKind::I64 => instrument is UpDownCounterI64 || instrument is GaugeI64,
        NumberKind::F64 => instrument is CounterF64 || instrument is UpDownCounterF64
            || instrument is GaugeF64 || instrument is HistogramF64,
    }
}

/// Counters add up, and gauges and histograms record, each only numbers of its own. What collecting
/// the attributes failed with goes out unchanged.
pub proof fn counters_add_and_others_record(
    errors: &mut ErrorState,
    instrument: SdkMetricInstrument,
    number: NumberKind,
    attributes: Result<(), OtelStatus>,
    r: Result<RecordOperation, OtelStatus>,
)
    requires
        call_ensures(instrument_record, (errors, Some(instrument), number, attributes), r),
    ensures
        r is Ok <==> attributes is Ok && takes(instrument, number),
        r matches Ok(operation) ==> (operation is Add <==> instrument is CounterU64
            || instrument is CounterF64 || instrument is UpDownCounterI64
            || instrument is UpDownCounterF64),
        attributes matches Err(status) ==> r == Err::<RecordOperation, OtelStatus>(status),
        attributes is Ok && r is Err ==> r->Err_0 == OtelStatus::InvalidArgument,
{
}

/// An observation reaches its observer exactly where there is one and the attributes could be
/// collected.
pub proof fn observations_reach_their_observer(
    errors: &mut ErrorState,
    observer_present: bool,
    attributes: Result<(), OtelStatus>,
    r: OtelStatus,
)
    requires
        call_ensures(observer_observe, (errors, observer_present, attributes), r),
        attributes matches Err(status) ==> status != OtelStatus::Success,
    ensures
        r == OtelStatus::Success <==> observer_present && attributes is Ok,
        !observer_present ==> r == OtelStatus::InvalidArgument,
        observer_present ==> (attributes matches Err(status) ==> r == status),
{
}

/// Counters and histograms can be bound, and a bound instrument records what the one it was bound
/// from does. What collecting the attributes failed with goes out unchanged.
pub proof fn bound_instruments_record_alike(
    errors: &mut ErrorState,
    instrument: SdkMetricInstrument,
    attributes: Result<(), OtelStatus>,
    slot: &mut OtelStatus,
    bound: Option<SdkBoundMetricInstrument>,
    recording: &mut ErrorState,
    number: NumberKind,
    r: Result<RecordOperation, OtelStatus>,
)
    requires
        call_ensures(instrument_bind, (errors, Some(instrument), attributes, Some(slot)), bound),
        call_ensures(bound_instrument_record, (recording, bound, number), r),
    ensures
        bound is Some <==> attributes is Ok && (instrument is CounterU64 || instrument is CounterF64
            || instrument is HistogramU64 || instrument is HistogramF64),
        bound is Some ==> *final(slot) == OtelStatus::Success,
        attributes matches Err(status) ==> *final(slot) == status,
        bound is None && attributes is Ok ==> *final(slot) == OtelStatus::InvalidArgument,
        r is Ok <==> bound is Some && takes(instrument, number),
        r matches Ok(operation) ==> (operation is Add <==> instrument is CounterU64
            || instrument is CounterF64),
        r matches Err(status) ==> status == OtelStatus::InvalidArgument,
{
}

/// The scope has the texts of the configuration: its name as it is, and a version and a schema URL
/// where they are not empty. It has no attributes yet.
pub open spec fn has_texts(scope: InstrumentationScope, config: OtelScopeConfig) -> bool {
    &&& reads(config.name, scope.name@)
    &&& is_part(scope.version, config.version)
    &&& is_part(scope.schema_url, config.schema_url)
    &&& scope.attributes@.len() == 0
}

/// Reading the scope gives one exactly where all its texts can be read.
pub open spec fn reads_scope(r: Option<InstrumentationScope>, config: OtelScopeConfig) -> bool {
    &&& r is Some <==> config.name.text() is Ok && config.version.text() is Ok
        && config.schema_url.text() is Ok
    &&& r matches Some(scope) ==> has_texts(scope, config)
}

/// A scope that is read has the texts that were given.
pub proof fn scopes_have_their_texts(
    errors: &mut ErrorState,
    config: &OtelScopeConfig,
    r: Option<InstrumentationScope>,
)
    requires
        call_ensures(read_scope, (errors, config), r),
    ensures
        reads_scope(r, *config),
        r is None ==> final(errors).last_status == OtelStatus::InvalidArgument
            || final(errors).last_status == OtelStatus::InvalidUtf8,
{
}

/// Attributes that were collected become those of the scope, which keeps its texts; without them
/// there is no scope.
pub proof fn scopes_get_their_attributes(
    scope: InstrumentationScope,
    attributes: Result<Vec<(String, Value)>, OtelStatus>,
    r: Option<InstrumentationScope>,
)
    requires
        call_ensures(with_scope_attributes, (scope, attributes), r),
    ensures
        r is Some <==> attributes is Ok,
        r matches Some(made) ==> made.attributes@ == attributes->Ok_0@ && made.name@ == scope.name@
            && made.version == scope.version && made.schema_url == scope.schema_url,
{
}

/// A logger has the scope that was asked for, exactly where there is a provider and a configuration
/// that can be read.
pub proof fn loggers_have_their_scope(
    errors: &mut ErrorState,
    provider_present: bool,
    config: &OtelScopeConfig,
    r: Option<InstrumentationScope>,
    asking: &mut ErrorState,
    asked: Option<InstrumentationScope>,
    missing: &mut ErrorState,
    none: Option<InstrumentationScope>,
)
    requires
        call_ensures(build_logger, (errors, provider_present, config), r),
        call_ensures(provider_get_logger, (asking, provider_present, Some(config)), asked),
        call_ensures(provider_get_logger, (missing, provider_present, None), none),
    ensures
        provider_present ==> reads_scope(r, *config) && reads_scope(asked, *config),
        !provider_present ==> r is None && asked is None && final(errors).last_status
            == OtelStatus::InvalidArgument,
        none is None && final(missing).last_status == OtelStatus::InvalidArgument,
{
}

/// A meter has the scope that was asked for, exactly where there is a provider and a configuration
/// that can be read. Without a provider there is none, and nothing is recorded.
pub proof fn meters_have_their_scope(
    errors: &mut ErrorState,
    provider_present: bool,
    config: &OtelScopeConfig,
    r: Option<InstrumentationScope>,
    asking: &mut ErrorState,
    asked: Option<InstrumentationScope>,
    plain: &mut ErrorState,
    named: Option<InstrumentationScope>,
)
    requires
        call_ensures(build_meter, (errors, provider_present, config), r),
        call_ensures(provider_get_meter_with_scope, (asking, provider_present, Some(config)), asked),
        call_ensures(
            provider_get_meter,
            (plain, provider_present, config.name, config.version, config.schema_url),
            named,
        ),
    ensures
        provider_present ==> reads_scope(r, *config) && reads_scope(asked, *config) && reads_scope(
            named,
            *config,
        ),
        !provider_present ==> r is None && asked is None && named is None && *final(errors)
            == *old(errors),
{
}

} // verus!
