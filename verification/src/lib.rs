//! Dynamic DNS for one address record: the rules that decide, from a zone's
//! records and the host's public IPv4 address, whether the record is to be
//! updated and whether the provider's answer confirms the update.

pub mod address;
pub mod config;
pub mod digits;
pub mod error;
pub mod record;
pub mod resolve;
pub mod run;
pub mod update;

pub use crate::address::{fetch_current_ip, parse_ipv4, Ipv4Address};
pub use crate::error::{ConfigError, ConfigField, RunError};
pub use crate::record::{DnsContent, DnsRecord, DnsRecordView};
pub use crate::resolve::{
    fetch_cloudflare_dns_record, find_matching_dns_record, has_record_of_other_type,
};
pub use crate::run::{start, step, Action, Event, State};
pub use crate::update::{plan_update, update_cloudflare_dns_record, update_request, UpdateRequest};
