//! The data that a search produces.
use vstd::prelude::*;

verus! {

/// An IPv4 socket address: four octets and a port.
#[derive(Clone, Copy, Debug, PartialEq, Eq)]
pub struct Endpoint {
    pub octets: [u8; 4],
    pub port: u16,
}

/// A resolved Internet Gateway Device.
#[derive(Clone, Debug, PartialEq, Eq)]
pub struct Gateway {
    /// Address of the responder.
    pub addr: Endpoint,
    /// Path of its device-description document.
    pub root_url: String,
    /// Path of its control endpoint.
    pub control_url: String,
    /// Path of its control-schema document.
    pub control_schema_url: String,
    /// Each action with the ordered names of its arguments; names are unique.
    pub control_schema: Vec<(String, Vec<String>)>,
}

/// The failures that a search reports to its caller.
#[derive(Clone, Copy, Debug, PartialEq, Eq)]
pub enum SearchError {
    /// Binding, configuring or sending on the socket failed.
    Setup,
    /// A receive failed for a reason other than its read timeout.
    Transport,
}

} // verus!
