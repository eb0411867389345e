//! Discovery of UPnP Internet Gateway Devices: decoding of discovery
//! responses, resolution of a responder into a gateway descriptor, and the
//! decisions of the first-match and accumulate-until-deadline searches.
//!
//! Sockets, clocks and HTTP are left to the caller: every function here works
//! on plain values, and all but the one that decodes UTF-8 through std are
//! verified.
use vstd::prelude::*;

pub mod gateway;
pub mod text;
pub mod ssdp;
pub mod markup;
pub mod description;
pub mod resolver;
pub mod driver;
pub mod search_laws;
