//! What the library was built with.

use vstd::prelude::*;

verus! {

/// The optional transports and compressions that are built in.
#[derive(Clone, Copy, Debug, PartialEq, Eq, Structural)]
pub struct Features {
    pub otlp_http: bool,
    pub otlp_grpc: bool,
    pub otlp_http_gzip: bool,
    pub otlp_http_zstd: bool,
    pub otlp_grpc_gzip: bool,
    pub otlp_grpc_zstd: bool,
}

impl Features {
    /// Some OTLP transport is built in.
    pub open spec fn spec_has_transport(self) -> bool {
        self.otlp_http || self.otlp_grpc
    }

    /// Whether some OTLP transport is built in.
    pub fn has_transport(&self) -> (r: bool)
        ensures
            r == self.spec_has_transport(),
    {
        self.otlp_http || self.otlp_grpc
    }
}

} // verus!
