//! Codes of instrument kinds and numeric types.

use vstd::prelude::*;

use crate::metric_data::NumberKind;

verus! {

/// The kinds of Metrics instruments.
#[derive(Clone, Copy, Debug, PartialEq, Eq, Structural)]
pub enum OtelMetricInstrumentKind {
    Counter,
    UpDownCounter,
    Gauge,
    Histogram,
    ObservableCounter,
    ObservableUpDownCounter,
    ObservableGauge,
}

impl OtelMetricInstrumentKind {
    /// The code of this kind.
    pub open spec fn spec_code(self) -> u32 {
        match self {
            OtelMetricInstrumentKind::Counter => 0,
            OtelMetricInstrumentKind::UpDownCounter => 1,
            OtelMetricInstrumentKind::Gauge => 2,
            OtelMetricInstrumentKind::Histogram => 3,
            OtelMetricInstrumentKind::ObservableCounter => 4,
            OtelMetricInstrumentKind::ObservableUpDownCounter => 5,
            OtelMetricInstrumentKind::ObservableGauge => 6,
        }
    }

    /// The kind with this code.
    pub fn from_u32(code: u32) -> (r: Option<OtelMetricInstrumentKind>)
        ensures
            r is Some <==> code <= 6,
            r matches Some(kind) ==> kind.spec_code() == code,
    {
        match code {
            0 => Some(OtelMetricInstrumentKind::Counter),
            1 => Some(OtelMetricInstrumentKind::UpDownCounter),
            2 => Some(OtelMetricInstrumentKind::Gauge),
            3 => Some(OtelMetricInstrumentKind::Histogram),
            4 => Some(OtelMetricInstrumentKind::ObservableCounter),
            5 => Some(OtelMetricInstrumentKind::ObservableUpDownCounter),
            6 => Some(OtelMetricInstrumentKind::ObservableGauge),
            _ => None,
        }
    }
}

/// The code of a numeric type.
pub open spec fn number_kind_code(kind: NumberKind) -> u32 {
    match kind {
        NumberKind::U64 => 0,
        NumberKind::I64 => 1,
        NumberKind::F64 => 2,
    }
}

/// The numeric type with this code.
pub fn number_kind_from_u32(code: u32) -> (r: Option<NumberKind>)
    ensures
        r is Some <==> code <= 2,
        r matches Some(kind) ==> number_kind_code(kind) == code,
{
    match code {
        0 => Some(NumberKind::U64),
        1 => Some(NumberKind::I64),
        2 => Some(NumberKind::F64),
        _ => None,
    }
}

/// A code stands for at most one kind.
pub proof fn code_determines_kind(a: OtelMetricInstrumentKind, b: OtelMetricInstrumentKind)
    ensures
        a.spec_code() == b.spec_code() <==> a == b,
{
}

} // verus!
