//! The records of a zone, as far as the rules read them.

use crate::address::Ipv4Address;
use vstd::prelude::*;

verus! {

/// What a record holds: the address of an `A` record, or that the record is
/// of another type.
#[derive(Clone, Copy, Debug, PartialEq, Eq, Structural)]
pub enum DnsContent {
    A { content: Ipv4Address },
    Other,
}

/// A record as the provider lists it.
#[derive(Clone, Debug, PartialEq, Eq)]
pub struct DnsRecord {
    /// The provider's identifier of the record.
    pub id: String,
    /// The identifier of the zone that holds the record.
    pub zone_id: String,
    /// The DNS name that the record is for.
    pub name: String,
    /// The record's type and value.
    pub content: DnsContent,
}

/// A record as a mathematical value.
pub struct DnsRecordView {
    pub id: Seq<char>,
    pub zone_id: Seq<char>,
    pub name: Seq<char>,
    pub content: DnsContent,
}

impl View for DnsRecord {
    type V = DnsRecordView;

    open spec fn view(&self) -> DnsRecordView {
        DnsRecordView {
            id: self.id@,
            zone_id: self.zone_id@,
            name: self.name@,
            content: self.content,
        }
    }
}

} // verus!
