//! Handle plumbing: the header that every handle starts with, and its validation.
//!
//! A handle that the C side passes is `None` where the pointer is NULL. Validation records a
//! diagnostic and leaves the status of the last failure alone.

use vstd::prelude::*;

use crate::abi::OtelStatus;
use crate::error::{set_last_error, ErrorState};

verus! {

/// The kind of Logs exporters.
pub const OTEL_HANDLE_KIND_LOG_EXPORTER: u64 = 1;

/// The kind of Logs processors.
pub const OTEL_HANDLE_KIND_LOG_PROCESSOR: u64 = 2;

/// The kind of batch Logs processor builders.
pub const OTEL_HANDLE_KIND_BATCH_LOG_PROCESSOR_BUILDER: u64 = 3;

/// The kind of Metrics exporters.
pub const OTEL_HANDLE_KIND_METRIC_EXPORTER: u64 = 4;

/// The kind of periodic Metrics reader builders.
pub const OTEL_HANDLE_KIND_PERIODIC_METRIC_READER_BUILDER: u64 = 5;

/// The kind of periodic Metrics readers.
pub const OTEL_HANDLE_KIND_PERIODIC_METRIC_READER: u64 = 6;

/// The kind of manual Metrics readers.
pub const OTEL_HANDLE_KIND_MANUAL_METRIC_READER: u64 = 7;

/// The kind of Metrics view builders.
pub const OTEL_HANDLE_KIND_METRIC_VIEW_BUILDER: u64 = 8;

/// The kind of Metrics views.
pub const OTEL_HANDLE_KIND_METRIC_VIEW: u64 = 9;

/// The kind of OTLP Metrics exporter builders.
pub const OTEL_HANDLE_KIND_OTLP_METRIC_EXPORTER_BUILDER: u64 = 10;

/// The kind of Traces exporters.
pub const OTEL_HANDLE_KIND_TRACE_EXPORTER: u64 = 11;

/// The kind of OTLP Traces exporter builders.
pub const OTEL_HANDLE_KIND_OTLP_TRACE_EXPORTER_BUILDER: u64 = 12;

const LIVE_MAGIC: u64 = 0x4F54_454C_4841_4E44;

const POISONED_MAGIC: u64 = 0xDEAD_DEAD_DEAD_DEAD;

/// The prefix of every handle: a liveness mark and the kind of the handle.
#[derive(Clone, Copy, Debug, PartialEq, Eq, Structural)]
pub struct OtelHandleHeader {
    magic: u64,
    kind: u64,
}

impl OtelHandleHeader {
    /// Whether the handle was not poisoned.
    pub closed spec fn live(self) -> bool {
        self.magic == LIVE_MAGIC
    }

    /// The kind of the handle.
    pub closed spec fn spec_kind(self) -> u64 {
        self.kind
    }

    /// The header of a live handle.
    pub fn new(kind: u64) -> (r: OtelHandleHeader)
        ensures
            r.live(),
            r.spec_kind() == kind,
    {
        OtelHandleHeader { magic: LIVE_MAGIC, kind }
    }

    pub fn is_live(&self) -> (r: bool)
        ensures
            r == self.live(),
    {
        self.magic == LIVE_MAGIC
    }

    pub fn kind(&self) -> (r: u64)
        ensures
            r == self.spec_kind(),
    {
        self.kind
    }

    /// Whether this is a live handle of the given kind.
    pub fn is_live_kind(&self, kind: u64) -> (r: bool)
        ensures
            r == (self.live() && self.spec_kind() == kind),
    {
        self.is_live() && self.kind() == kind
    }

    /// Marks the handle as consumed.
    pub fn poison(&mut self)
        ensures
            !final(self).live(),
            final(self).spec_kind() == old(self).spec_kind(),
    {
        self.magic = POISONED_MAGIC;
    }
}

/// A handle type.
pub trait HasHandleHeader: Sized {
    /// The kind of handles of this type.
    spec fn spec_type_kind() -> u64;

    /// The header of this handle.
    spec fn spec_header(&self) -> OtelHandleHeader;

    /// This handle with another header.
    spec fn with_header(self, header: OtelHandleHeader) -> Self;

    /// The kind of handles of this type.
    fn type_kind() -> (r: u64)
        ensures
            r == Self::spec_type_kind(),
    ;

    /// The header of this handle.
    fn header(&self) -> (r: OtelHandleHeader)
        ensures
            r == self.spec_header(),
    ;

    /// Replaces the header of this handle.
    fn set_header(&mut self, header: OtelHandleHeader)
        ensures
            *final(self) == old(self).with_header(header),
            final(self).spec_header() == header,
    ;
}

/// Whether the handle is a live one of its type.
pub open spec fn is_valid<T: HasHandleHeader>(handle: T) -> bool {
    handle.spec_header().live() && handle.spec_header().spec_kind() == T::spec_type_kind()
}

/// The diagnostic for a handle that is not valid.
pub open spec fn handle_message<T: HasHandleHeader>(handle: Option<T>) -> Seq<char> {
    match handle {
        None => "null handle passed to OpenTelemetry C API"@,
        Some(h) => if !h.spec_header().live() {
            "handle failed validation: not a live OpenTelemetry C handle"@
        } else {
            "handle failed validation: wrong OpenTelemetry C handle type"@
        },
    }
}

/// What validation leaves in the error slot.
pub open spec fn handle_checked<T: HasHandleHeader>(
    handle: Option<T>,
    before: ErrorState,
    after: ErrorState,
) -> bool {
    if handle matches Some(h) && is_valid(h) {
        after == before
    } else {
        after.holds(before.last_status, handle_message(handle))
    }
}

/// A call that forgets the last failure and then refuses this handle: the status is
/// `InvalidArgument`, and only the diagnostic is recorded.
pub open spec fn refused_handle<T: HasHandleHeader>(
    handle: Option<T>,
    r: OtelStatus,
    after: ErrorState,
) -> bool {
    r == OtelStatus::InvalidArgument && after.holds(OtelStatus::Success, handle_message(handle))
}

/// Validates a header against the kind of `T`.
fn check_header<T: HasHandleHeader>(errors: &mut ErrorState, handle: &T) -> (r: bool)
    ensures
        r == is_valid(*handle),
        handle_checked(Some(*handle), *old(errors), *final(errors)),
{
    let header = handle.header();
    if !header.is_live() {
        set_last_error(errors, "handle failed validation: not a live OpenTelemetry C handle");
        return false;
    }
    if header.kind() != T::type_kind() {
        set_last_error(errors, "handle failed validation: wrong OpenTelemetry C handle type");
        return false;
    }
    true
}

/// The handle, if it is a live one of its type.
pub fn checked_ref<'a, T: HasHandleHeader>(errors: &mut ErrorState, handle: Option<&'a T>) -> (r:
    Option<&'a T>)
    ensures
        match handle {
            None => r is None && handle_checked(None::<T>, *old(errors), *final(errors)),
            Some(h) => (r is Some <==> is_valid(*h)) && (r matches Some(g) ==> *g == *h)
                && handle_checked(Some(*h), *old(errors), *final(errors)),
        },
{
    match handle {
        None => {
            set_last_error(errors, "null handle passed to OpenTelemetry C API");
            None
        },
        Some(h) => if check_header(errors, h) {
            Some(h)
        } else {
            None
        },
    }
}

/// The handle for modification, if it is a live one of its type.
pub fn checked_mut<'a, T: HasHandleHeader>(errors: &mut ErrorState, handle: Option<&'a mut T>) -> (r:
    Option<&'a mut T>)
    ensures
        match handle {
            None => r is None && handle_checked(None::<T>, *old(errors), *final(errors)),
            Some(h) => (r is Some <==> is_valid(*h)) && (r matches Some(g) ==> *g == *h && *final(g)
                == *final(h)) && (r is None ==> *final(h) == *h) && handle_checked(
                Some(*h),
                *old(errors),
                *final(errors),
            ),
        },
{
    match handle {
        None => {
            set_last_error(errors, "null handle passed to OpenTelemetry C API");
            None
        },
        Some(h) => if check_header(errors, &*h) {
            Some(h)
        } else {
            None
        },
    }
}

/// Allocates a handle.
pub fn into_raw<T>(value: T) -> (r: Box<T>)
    ensures
        *r == value,
{
    Box::new(value)
}

/// A valid handle leaves its slot and comes out poisoned; any other stays where it is.
pub open spec fn gives_up<T: HasHandleHeader>(
    before: Option<T>,
    after: Option<T>,
    r: Option<T>,
) -> bool {
    if before matches Some(h) && is_valid(h) {
        &&& after is None
        &&& r is Some
        &&& !(r->0).spec_header().live()
        &&& (r->0).spec_header().spec_kind() == T::spec_type_kind()
        &&& r->0 == (before->0).with_header((r->0).spec_header())
    } else {
        r is None && after == before
    }
}

/// Takes ownership of a handle: a valid one leaves the slot and is returned poisoned. Any other
/// stays where it is.
pub fn take<T: HasHandleHeader>(errors: &mut ErrorState, handle: &mut Option<T>) -> (r: Option<T>)
    ensures
        handle_checked(*old(handle), *old(errors), *final(errors)),
        gives_up(*old(handle), *final(handle), r),
{
    match handle.take() {
        None => {
            set_last_error(errors, "null handle passed to OpenTelemetry C API");
            None
        },
        Some(mut h) => {
            if check_header(errors, &h) {
                let mut header = h.header();
                header.poison();
                h.set_header(header);
                Some(h)
            } else {
                *handle = Some(h);
                None
            }
        },
    }
}

/// Gives up a valid handle: it leaves the slot and is returned poisoned, to be released. Anything
/// else is left alone.
pub fn destroy<T: HasHandleHeader>(handle: &mut Option<T>) -> (r: Option<T>)
    ensures
        gives_up(*old(handle), *final(handle), r),
{
    match handle.take() {
        None => None,
        Some(mut h) => {
            let mut header = h.header();
            if header.is_live_kind(T::type_kind()) {
                header.poison();
                h.set_header(header);
                Some(h)
            } else {
                *handle = Some(h);
                None
            }
        },
    }
}

/// A handle is given up once: whatever follows on its slot finds nothing, and what was given up
/// is not valid any more.
pub proof fn handles_are_given_up_once<T: HasHandleHeader>(
    before: Option<T>,
    between: Option<T>,
    after: Option<T>,
    first: Option<T>,
    second: Option<T>,
)
    requires
        gives_up(before, between, first),
        gives_up(between, after, second),
    ensures
        first is Some ==> second is None && after is None,
        first matches Some(handle) ==> !is_valid(handle),
        first is None ==> between == before,
{
}

/// The status and diagnostic of a panic that reached the C boundary.
pub fn caught_panic(errors: &mut ErrorState) -> (r: OtelStatus)
    ensures
        r == OtelStatus::InternalError,
        final(errors).holds(old(errors).last_status, "caught panic at FFI boundary"@),
{
    set_last_error(errors, "caught panic at FFI boundary");
    OtelStatus::InternalError
}

} // verus!
