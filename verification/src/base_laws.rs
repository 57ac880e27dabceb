//! What the building blocks keep: statuses and their numbers, borrowed texts and arrays, the error
//! slot, handles, lengths of time and numerals.

use vstd::prelude::*;
use vstd::utf8::{encode_utf8, valid_utf8};

use crate::abi::{AbiError, OtelArrayView, OtelStatus, OtelStringView};
use crate::error::{
    clear_last_error, fail, fail_abi, fail_owned, last_status_or, reset_last_status,
    set_last_error, status_from_export_pipeline_error, ErrorState, OTelSdkError,
};
use crate::export_error::ConversionError;
use crate::features::Features;
use crate::handle::{
    caught_panic, checked_mut, checked_ref, destroy, is_valid, take, HasHandleHeader,
    OtelHandleHeader, OTEL_HANDLE_KIND_BATCH_LOG_PROCESSOR_BUILDER, OTEL_HANDLE_KIND_LOG_EXPORTER,
    OTEL_HANDLE_KIND_LOG_PROCESSOR, OTEL_HANDLE_KIND_MANUAL_METRIC_READER,
    OTEL_HANDLE_KIND_METRIC_EXPORTER, OTEL_HANDLE_KIND_METRIC_VIEW,
    OTEL_HANDLE_KIND_METRIC_VIEW_BUILDER, OTEL_HANDLE_KIND_OTLP_METRIC_EXPORTER_BUILDER,
    OTEL_HANDLE_KIND_OTLP_TRACE_EXPORTER_BUILDER, OTEL_HANDLE_KIND_PERIODIC_METRIC_READER,
    OTEL_HANDLE_KIND_PERIODIC_METRIC_READER_BUILDER, OTEL_HANDLE_KIND_TRACE_EXPORTER,
};
use crate::log_convert::ConvertFault;
use crate::log_validate::PoolFault;
use crate::log_value::OtelLogValueType;
use crate::text::{append_decimal, decimal, lower, numbered_text, same_bytes, same_text};
use crate::time::Duration;

verus! {

/// The number of a status.
pub open spec fn status_number(status: OtelStatus) -> u32 {
    match status {
        OtelStatus::Success => 0,
        OtelStatus::InvalidArgument => 1,
        OtelStatus::InvalidUtf8 => 2,
        OtelStatus::InvalidConfig => 3,
        OtelStatus::AlreadyShutdown => 4,
        OtelStatus::Timeout => 5,
        OtelStatus::ExportFailed => 6,
        OtelStatus::InternalError => 7,
        OtelStatus::Other(code) => code,
    }
}

/// A status goes to its number and back.
pub proof fn statuses_have_numbers(status: OtelStatus, code: u32, back: OtelStatus)
    requires
        call_ensures(OtelStatus::code, (status,), code),
        call_ensures(OtelStatus::from_code, (code,), back),
    ensures
        code == status_number(status),
        code <= 7 <==> !(back is Other),
        status_number(back) == code,
        !(status is Other) ==> back == status,
{
}

/// A view of a text reads as that text, and the empty view as none.
pub proof fn views_read_as_their_text<'a>(
    text: &'a str,
    view: OtelStringView<'a>,
    back: Result<&'a str, AbiError>,
    owned: Result<String, AbiError>,
    empty: OtelStringView<'a>,
)
    requires
        call_ensures(OtelStringView::<'a>::of, (text,), view),
        call_ensures(OtelStringView::<'a>::as_str, (&view,), back),
        call_ensures(OtelStringView::<'a>::to_string_strict, (&view,), owned),
        call_ensures(OtelStringView::<'a>::empty, (), empty),
    ensures
        back matches Ok(read) && read@ == text@,
        owned matches Ok(read) && read@ == text@,
        view.bytes matches Some(bytes) && bytes@ == encode_utf8(text@),
        empty.bytes matches Some(bytes) && bytes@.len() == 0,
{
}

/// A view can be read exactly where it has bytes that are UTF-8, and then the text has these bytes.
/// Bytes that are missing and bytes that are not UTF-8 are told apart.
pub proof fn views_are_read_as_utf8<'a>(
    view: OtelStringView<'a>,
    r: Result<&'a str, AbiError>,
    owned: Result<String, AbiError>,
)
    requires
        call_ensures(OtelStringView::<'a>::as_str, (&view,), r),
        call_ensures(OtelStringView::<'a>::to_string_strict, (&view,), owned),
    ensures
        view.bytes is None ==> r == Err::<&'a str, AbiError>(AbiError::NullData),
        view.bytes matches Some(bytes) ==> (if valid_utf8(bytes@) {
            r matches Ok(text) && encode_utf8(text@) == bytes@
        } else {
            r == Err::<&'a str, AbiError>(AbiError::InvalidUtf8)
        }),
        owned is Ok <==> r is Ok,
        owned matches Ok(text) ==> text@ == r->Ok_0@,
        owned matches Err(e) ==> e == r->Err_0,
{
}

/// A text that cannot be read has the status of its cause.
pub proof fn unreadable_texts_have_a_status(
    errors: &mut ErrorState,
    e: AbiError,
    status: OtelStatus,
    r: OtelStatus,
)
    requires
        call_ensures(AbiError::status, (e,), status),
        call_ensures(fail_abi, (errors, e), r),
    ensures
        e is NullData ==> status == OtelStatus::InvalidArgument,
        e is InvalidUtf8 ==> status == OtelStatus::InvalidUtf8,
        r == status,
        final(errors).last_status == status,
{
}

/// An array has the count that came with it, and dangles exactly where it is missing although it
/// should have elements.
pub proof fn arrays_have_their_count<'a, T>(
    items: &'a [T],
    count: usize,
    seen: usize,
    dangling: bool,
    missing_count: usize,
    missing: bool,
)
    requires
        call_ensures(OtelArrayView::<'a, T>::count, (&OtelArrayView::Data(items),), seen),
        call_ensures(OtelArrayView::<'a, T>::is_dangling, (&OtelArrayView::Data(items),), dangling),
        call_ensures(
            OtelArrayView::<'a, T>::count,
            (&OtelArrayView::Null(count),),
            missing_count,
        ),
        call_ensures(OtelArrayView::<'a, T>::is_dangling, (&OtelArrayView::Null(count),), missing),
    ensures
        seen == items@.len(),
        !dangling,
        missing_count == count,
        missing <==> count != 0,
{
}

/// The error slot holds the last failure: its status, which also goes out, and its diagnostic.
/// Clearing it leaves success without a diagnostic, and resetting its status keeps the diagnostic.
pub proof fn error_slot_holds_the_last_failure(
    errors: &mut ErrorState,
    status: OtelStatus,
    message: &str,
    r: OtelStatus,
    reset: &mut ErrorState,
    cleared: &mut ErrorState,
    noted: &mut ErrorState,
)
    requires
        call_ensures(fail, (errors, status, message), r),
        *old(reset) == *final(errors),
        call_ensures(reset_last_status, (reset,), ()),
        *old(cleared) == *final(errors),
        call_ensures(clear_last_error, (cleared,), ()),
        call_ensures(set_last_error, (noted, message), ()),
    ensures
        r == status,
        final(errors).last_status == status,
        final(errors).message@ == message@,
        final(reset).last_status == OtelStatus::Success,
        final(reset).message@ == message@,
        final(cleared).last_status == OtelStatus::Success,
        final(cleared).message@.len() == 0,
        final(noted).last_status == old(noted).last_status,
        final(noted).message@ == message@,
{
}

/// An owned diagnostic is held as a borrowed one is.
pub proof fn owned_diagnostics_are_held(
    errors: &mut ErrorState,
    status: OtelStatus,
    message: String,
    r: OtelStatus,
)
    requires
        call_ensures(fail_owned, (errors, status, message), r),
    ensures
        r == status,
        final(errors).last_status == status,
        final(errors).message@ == message@,
{
}

/// The last status is that of the slot, or the fallback where the slot holds no failure.
pub proof fn last_status_falls_back(errors: &ErrorState, fallback: OtelStatus, r: OtelStatus)
    requires
        call_ensures(last_status_or, (errors, fallback), r),
    ensures
        errors.last_status == OtelStatus::Success ==> r == fallback,
        errors.last_status != OtelStatus::Success ==> r == errors.last_status,
{
}

/// A failure of the export pipeline has the status of its kind, which the error slot holds too.
pub proof fn pipeline_failures_have_a_status(
    errors: &mut ErrorState,
    error: &OTelSdkError,
    r: OtelStatus,
)
    requires
        error.wf(),
        call_ensures(status_from_export_pipeline_error, (errors, error), r),
    ensures
        error is AlreadyShutdown ==> r == OtelStatus::AlreadyShutdown,
        error is Timeout ==> r == OtelStatus::Timeout,
        error is InternalFailure ==> r == OtelStatus::ExportFailed,
        final(errors).last_status == r,
        error matches OTelSdkError::InternalFailure(text) ==> text@.is_suffix_of(
            final(errors).message@,
        ),
{
    if let OTelSdkError::InternalFailure(text) = error {
        let message = "internal failure: "@ + text@;
        assert(message.subrange(message.len() - text@.len(), message.len() as int) =~= text@);
    }
}

/// A caught panic is the library's failure, and keeps the status of the slot.
pub proof fn caught_panics_are_internal(errors: &mut ErrorState, r: OtelStatus)
    requires
        call_ensures(caught_panic, (errors,), r),
    ensures
        r == OtelStatus::InternalError,
        final(errors).last_status == old(errors).last_status,
{
}

/// Every failed conversion of a batch is a failed export.
pub proof fn failed_conversions_fail_the_export(error: ConversionError, r: OtelStatus)
    requires
        call_ensures(ConversionError::status, (&error,), r),
    ensures
        r == OtelStatus::ExportFailed,
{
}

/// A refused pool is the caller's mistake, except that bytes which are not UTF-8 are that, and room
/// that the allocator refused is the library's failure.
pub proof fn refused_pools_have_a_cause(fault: PoolFault, r: OtelStatus)
    requires
        call_ensures(PoolFault::status, (&fault,), r),
    ensures
        fault is ValidationMemory || fault is MapKeyMemory ==> r == OtelStatus::InternalError,
        fault == PoolFault::View(AbiError::InvalidUtf8) ==> r == OtelStatus::InvalidUtf8,
        !(fault is ValidationMemory) && !(fault is MapKeyMemory) && fault != PoolFault::View(
            AbiError::InvalidUtf8,
        ) ==> r == OtelStatus::InvalidArgument,
{
}

/// A conversion that stops is the library's failure, except for a text that cannot be read.
pub proof fn stopped_conversions_have_a_cause(fault: ConvertFault, r: OtelStatus)
    requires
        call_ensures(ConvertFault::status, (&fault,), r),
    ensures
        !(fault is View) ==> r == OtelStatus::InternalError,
        fault == ConvertFault::View(AbiError::NullData) ==> r == OtelStatus::InvalidArgument,
        fault == ConvertFault::View(AbiError::InvalidUtf8) ==> r == OtelStatus::InvalidUtf8,
{
}

/// Each kind of log value has its tag, and a tag goes to its kind and back.
pub proof fn log_kinds_have_tags(
    kind: OtelLogValueType,
    tag: u32,
    back: Option<OtelLogValueType>,
    other: u32,
    found: Option<OtelLogValueType>,
)
    requires
        call_ensures(OtelLogValueType::as_u32, (kind,), tag),
        call_ensures(OtelLogValueType::from_u32, (tag,), back),
        call_ensures(OtelLogValueType::from_u32, (other,), found),
    ensures
        kind is Empty <==> tag == 0,
        kind is String <==> tag == 1,
        kind is Bool <==> tag == 2,
        kind is Int64 <==> tag == 3,
        kind is Double <==> tag == 4,
        kind is Bytes <==> tag == 5,
        kind is Array <==> tag == 6,
        kind is KvMap <==> tag == 7,
        back == Some(kind),
        found is Some <==> other <= 7,
{
}

/// A new header is live and of its kind, and a poisoned one is not live any more.
pub proof fn headers_live_until_poisoned(
    kind: u64,
    header: OtelHandleHeader,
    live: bool,
    own: bool,
    other: u64,
    foreign: bool,
    seen: u64,
    poisoned: &mut OtelHandleHeader,
    after: bool,
)
    requires
        call_ensures(OtelHandleHeader::new, (kind,), header),
        call_ensures(OtelHandleHeader::is_live, (&header,), live),
        call_ensures(OtelHandleHeader::is_live_kind, (&header, kind), own),
        other != kind,
        call_ensures(OtelHandleHeader::is_live_kind, (&header, other), foreign),
        call_ensures(OtelHandleHeader::kind, (&header,), seen),
        *old(poisoned) == header,
        call_ensures(OtelHandleHeader::poison, (poisoned,), ()),
        call_ensures(OtelHandleHeader::is_live, (&*final(poisoned),), after),
    ensures
        live,
        own,
        !foreign,
        seen == kind,
        !after,
{
}

/// The kinds of handles have different codes.
pub proof fn handle_kinds_differ()
    ensures
        OTEL_HANDLE_KIND_LOG_EXPORTER == 1,
        OTEL_HANDLE_KIND_LOG_PROCESSOR == 2,
        OTEL_HANDLE_KIND_BATCH_LOG_PROCESSOR_BUILDER == 3,
        OTEL_HANDLE_KIND_METRIC_EXPORTER == 4,
        OTEL_HANDLE_KIND_PERIODIC_METRIC_READER_BUILDER == 5,
        OTEL_HANDLE_KIND_PERIODIC_METRIC_READER == 6,
        OTEL_HANDLE_KIND_MANUAL_METRIC_READER == 7,
        OTEL_HANDLE_KIND_METRIC_VIEW_BUILDER == 8,
        OTEL_HANDLE_KIND_METRIC_VIEW == 9,
        OTEL_HANDLE_KIND_OTLP_METRIC_EXPORTER_BUILDER == 10,
        OTEL_HANDLE_KIND_TRACE_EXPORTER == 11,
        OTEL_HANDLE_KIND_OTLP_TRACE_EXPORTER_BUILDER == 12,
{
}

/// A handle passes a check exactly where it is there, live and of its kind, and is then the handle
/// that was checked. A handle that does not pass leaves a diagnostic of its cause.
pub proof fn checks_pass_live_handles<'a, T: HasHandleHeader>(
    errors: &mut ErrorState,
    handle: Option<&'a T>,
    r: Option<&'a T>,
)
    requires
        call_ensures(checked_ref::<T>, (errors, handle), r),
    ensures
        r is Some <==> (handle matches Some(h) && h.spec_header().live()
            && h.spec_header().spec_kind() == T::spec_type_kind()),
        r matches Some(checked) ==> *checked == *handle->0,
        r is Some ==> *final(errors) == *old(errors),
        r is None ==> final(errors).last_status == old(errors).last_status,
        handle is None ==> final(errors).message@ == "null handle passed to OpenTelemetry C API"@,
        handle matches Some(h) ==> (!h.spec_header().live() ==> final(errors).message@
            == "handle failed validation: not a live OpenTelemetry C handle"@),
        handle matches Some(h) ==> (h.spec_header().live() && h.spec_header().spec_kind()
            != T::spec_type_kind() ==> final(errors).message@
            == "handle failed validation: wrong OpenTelemetry C handle type"@),
{
}

/// A mutable check passes as a shared one does: what is done to the handle that passed is done to
/// the handle that was checked, and one that does not pass stays as it is.
pub proof fn checks_pass_live_handles_to_change<'a, T: HasHandleHeader>(
    errors: &mut ErrorState,
    handle: &'a mut T,
    r: Option<&'a mut T>,
)
    requires
        call_ensures(checked_mut::<T>, (errors, Some(handle)), r),
    ensures
        r is Some <==> old(handle).spec_header().live() && old(handle).spec_header().spec_kind()
            == T::spec_type_kind(),
        r matches Some(checked) ==> *checked == *old(handle) && *final(checked) == *final(handle),
        r is None ==> *final(handle) == *old(handle),
        r is Some ==> *final(errors) == *old(errors),
{
}

/// A handle is taken once: the first call empties its place and hands it out poisoned, so that the
/// second finds nothing, and no later check passes it.
pub proof fn handles_are_taken_once<T: HasHandleHeader>(
    errors: &mut ErrorState,
    place: &mut Option<T>,
    first: Option<T>,
    later: &mut ErrorState,
    again: &mut Option<T>,
    second: Option<T>,
)
    requires
        call_ensures(take::<T>, (errors, place), first),
        *old(again) == *final(place),
        call_ensures(take::<T>, (later, again), second),
    ensures
        first is Some <==> (*old(place) matches Some(h) && is_valid(h)),
        first is Some ==> *final(place) is None && second is None,
        first is None ==> *final(place) == *old(place) && second is None,
        first matches Some(h) ==> !is_valid(h),
{
}

/// A handle is destroyed once, and anything but a live one of its kind is left alone.
pub proof fn handles_are_destroyed_once<T: HasHandleHeader>(
    place: &mut Option<T>,
    first: Option<T>,
    again: &mut Option<T>,
    second: Option<T>,
)
    requires
        call_ensures(destroy::<T>, (place,), first),
        *old(again) == *final(place),
        call_ensures(destroy::<T>, (again,), second),
    ensures
        first is Some <==> (*old(place) matches Some(h) && is_valid(h)),
        first is Some ==> *final(place) is None && second is None,
        first is None ==> *final(place) == *old(place) && second is None,
{
}

/// Lengths of time are exact, and their whole milliseconds are rounded down and capped.
pub proof fn lengths_of_time_are_exact(
    secs: u64,
    of_secs: Duration,
    millis: u64,
    of_millis: Duration,
    back: u64,
    length: Duration,
    rounded: u64,
)
    requires
        call_ensures(Duration::from_secs, (secs,), of_secs),
        call_ensures(Duration::from_millis, (millis,), of_millis),
        call_ensures(Duration::millis_saturating, (&of_millis,), back),
        length.wf(),
        call_ensures(Duration::millis_saturating, (&length,), rounded),
    ensures
        of_secs.lasts(secs * 1000),
        of_millis.lasts(millis as int),
        of_millis.nanos < 1_000_000_000,
        back == millis,
        length.secs * 1000 + 1000 <= u64::MAX ==> rounded * 1_000_000 <= length.secs * 1_000_000_000
            + length.nanos && length.secs * 1_000_000_000 + length.nanos < (rounded + 1) * 1_000_000,
        length.secs * 1000 > u64::MAX ==> rounded == u64::MAX,
{
}

/// The number that a numeral stands for.
pub open spec fn numeral(text: Seq<char>) -> int
    decreases text.len(),
{
    if text.len() == 0 {
        0
    } else {
        numeral(text.drop_last()) * 10 + (text.last() as int - 48)
    }
}

proof fn lemma_numeral(n: nat)
    ensures
        numeral(decimal(n)) == n,
        decimal(n).len() > 0,
        n > 0 ==> decimal(n)[0] != '0',
        n == 0 ==> decimal(n).len() == 1,
        forall|i: int| 0 <= i < decimal(n).len() ==> '0' <= #[trigger] decimal(n)[i] <= '9',
    decreases n,
{
    reveal_with_fuel(numeral, 2);
    if n >= 10 {
        let front = decimal(n / 10);
        lemma_numeral(n / 10);
        assert(decimal(n).drop_last() =~= front);
    } else {
        assert(decimal(n).drop_last() =~= Seq::<char>::empty());
    }
}

/// The decimal numeral of a number stands for it, in digits alone and without a leading zero.
pub proof fn numerals_stand_for_their_number(out: &mut String, n: u64, digits: Seq<char>)
    requires
        call_ensures(append_decimal, (out, n), ()),
        final(out)@ == old(out)@ + digits,
    ensures
        numeral(digits) == n,
        digits.len() > 0,
        digits.len() > 1 ==> digits[0] != '0',
        forall|i: int| 0 <= i < digits.len() ==> '0' <= #[trigger] digits[i] <= '9',
{
    let own = decimal(n as nat);
    let whole = final(out)@;
    lemma_numeral(n as nat);
    let start = old(out)@.len() as int;
    assert(digits =~= whole.subrange(start, whole.len() as int));
    assert(own =~= whole.subrange(start, whole.len() as int));
}

/// A numbered text has its number between its parts.
pub proof fn numbered_texts_hold_their_number(prefix: &str, n: u64, suffix: &str, r: String)
    requires
        call_ensures(numbered_text, (prefix, n, suffix), r),
    ensures
        exists|digits: Seq<char>| #[trigger] numeral(digits) == n && r@ == prefix@ + digits + suffix@,
{
    lemma_numeral(n as nat);
    assert(numeral(decimal(n as nat)) == n);
}

/// Texts and bytes are the same exactly where they are equal, and only ASCII capitals are lowered.
pub proof fn sameness_is_equality(
    a: &str,
    b: &str,
    texts: bool,
    x: &[u8],
    y: &[u8],
    bytes: bool,
    letter: u8,
    lowered: u8,
)
    requires
        call_ensures(same_text, (a, b), texts),
        call_ensures(same_bytes, (x, y), bytes),
        call_ensures(lower, (letter,), lowered),
    ensures
        texts <==> a@ == b@,
        bytes <==> x@ == y@,
        65 <= letter <= 90 ==> lowered == letter + 32,
        letter < 65 || letter > 90 ==> lowered == letter,
{
}

/// There is a transport exactly where HTTP or gRPC is built in.
pub proof fn transports_are_built_in(features: Features, r: bool)
    requires
        call_ensures(Features::has_transport, (&features,), r),
    ensures
        r <==> features.otlp_http || features.otlp_grpc,
{
}

} // verus!
