//! An out-of-band interaction logger: an authoritative zone that publishes the
//! host's own public addresses, correlation of queried subdomains with their
//! source addresses, and a time-bounded cache of an address reputation list.
pub mod address;
pub mod correlation;
pub mod reputation;
pub mod zone;
