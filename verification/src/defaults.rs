//! The names and numbers that the library fills in where a caller gives none.

use vstd::prelude::*;

verus! {

/// The tag of a local DNS resolver.
pub const DNS_LOCAL_TAG: &'static str = "dns-local";

/// The tag of a UDP DNS server.
pub const DNS_UDP_TAG: &'static str = "dns-udp";

/// The tag of a mixed inbound.
pub const MIXED_INBOUND_TAG: &'static str = "mixed-inbound";

/// The tag of a direct inbound.
pub const DIRECT_INBOUND_TAG: &'static str = "direct-inbound";

/// The tag of a direct outbound.
pub const DIRECT_OUTBOUND_TAG: &'static str = "direct-outbound";

/// The tag of a VLESS outbound.
pub const VLESS_OUTBOUND_TAG: &'static str = "vless-outbound";

/// The UDP DNS server of a seeded document.
pub const DNS_UDP_SERVER: &'static str = "1.1.1.1";

/// The address on which the mixed inbound of a seeded document listens.
pub const LOOPBACK: &'static str = "127.0.0.1";

/// The port on which the mixed inbound of a seeded document listens.
pub const MIXED_PORT: u16 = 12334;

/// The port of DNS traffic.
pub const DNS_PORT: u16 = 53;

/// The action of a rule that sends a connection to an outbound.
pub const ROUTE_ACTION: &'static str = "route";

/// The type of a local DNS resolver.
pub const LOCAL_TYPE: &'static str = "local";

/// The type of a direct outbound.
pub const DIRECT_TYPE: &'static str = "direct";

/// The type of a VLESS outbound.
pub const VLESS_TYPE: &'static str = "vless";

} // verus!
