//! Resolve a fixed set of hostnames over DNS-over-HTTPS and render the
//! results as a hosts-file-formatted text buffer.
//!
//! The library holds the logic: decoding the DoH JSON reply, picking the
//! first reachable resolver, extracting the first IPv4 answer, and laying
//! the lines out in fixed columns. Network and file I/O live outside it.

pub mod format;
pub mod ipv4;
pub mod json;
pub mod output;
pub mod query;
pub mod response;
pub mod selector;

pub use format::format_host;
pub use ipv4::is_ipv4_literal;
pub use json::decode_doh;
pub use output::build_hosts_output;
pub use query::build_query_url;
pub use query::resolver_urls;
pub use query::target_hostnames;
pub use response::HostRecord;
pub use response::Hosts;
pub use response::Resp;
pub use selector::select_resolver;
pub use selector::selector_step;
pub use selector::SelectorStep;
