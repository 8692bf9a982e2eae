//! Asking the provider for a new address, and reading its answer.

use crate::address::Ipv4Address;
use crate::error::RunError;
use crate::record::{DnsContent, DnsRecord, DnsRecordView};
use vstd::prelude::*;

verus! {

/// The time to live that an updated record gets; the provider reads 1 as
/// "automatic".
pub const UPDATE_TTL: u32 = 1;

/// A request to the provider to give a record a new content.
#[derive(Clone, Debug, PartialEq, Eq)]
pub struct UpdateRequest {
    /// The zone that holds the record.
    pub zone_identifier: String,
    /// The record to change.
    pub identifier: String,
    /// The record's name, which stays.
    pub name: String,
    /// The content that the record is to get.
    pub content: DnsContent,
    /// Whether the provider is to proxy the record.
    pub proxied: Option<bool>,
    /// The time to live that the record is to get.
    pub ttl: Option<u32>,
}

/// A request as a mathematical value.
pub struct UpdateRequestView {
    pub zone_identifier: Seq<char>,
    pub identifier: Seq<char>,
    pub name: Seq<char>,
    pub content: DnsContent,
    pub proxied: Option<bool>,
    pub ttl: Option<u32>,
}

impl View for UpdateRequest {
    type V = UpdateRequestView;

    open spec fn view(&self) -> UpdateRequestView {
        UpdateRequestView {
            zone_identifier: self.zone_identifier@,
            identifier: self.identifier@,
            name: self.name@,
            content: self.content,
            proxied: self.proxied,
            ttl: self.ttl,
        }
    }
}

/// The request that gives a record a new address: the record's zone,
/// identifier and name, the address as the content of an address record,
/// no proxying, and the shortest time to live.
pub open spec fn request_for(record: DnsRecordView, new_ip: Ipv4Address) -> UpdateRequestView {
    UpdateRequestView {
        zone_identifier: record.zone_id,
        identifier: record.id,
        name: record.name,
        content: DnsContent::A { content: new_ip },
        proxied: Some(false),
        ttl: Some(UPDATE_TTL),
    }
}

/// What the provider's answer to an update means: the address, where the
/// answer is an address record that holds the address asked for.
pub open spec fn confirmation(answer: DnsContent, new_ip: Ipv4Address) -> Result<
    Ipv4Address,
    RunError,
> {
    match answer {
        DnsContent::A { content } => if content == new_ip {
            Ok(content)
        } else {
            Err(RunError::Consistency)
        },
        DnsContent::Other => Err(RunError::TypeMismatch),
    }
}

/// What is to be done about a record, given the host's public address:
/// nothing where the record holds that address, an update where it holds
/// another; a record that is no address record cannot be kept up to date.
pub open spec fn planned(record: DnsRecordView, current_ip: Ipv4Address) -> Result<
    Option<UpdateRequestView>,
    RunError,
> {
    match record.content {
        DnsContent::A { content } => if content == current_ip {
            Ok(None)
        } else {
            Ok(Some(request_for(record, current_ip)))
        },
        DnsContent::Other => Err(RunError::TypeMismatch),
    }
}

/// The view of a plan.
pub open spec fn plan_view(r: Result<Option<UpdateRequest>, RunError>) -> Result<
    Option<UpdateRequestView>,
    RunError,
> {
    match r {
        Ok(Some(request)) => Ok(Some(request@)),
        Ok(None) => Ok(None),
        Err(e) => Err(e),
    }
}

/// Makes the request that gives `record` the address `new_ip`.
pub fn update_request(record: &DnsRecord, new_ip: Ipv4Address) -> (request: UpdateRequest)
    ensures
        request@ == request_for(record@, new_ip),
{
    UpdateRequest {
        zone_identifier: record.zone_id.clone(),
        identifier: record.id.clone(),
        name: record.name.clone(),
        content: DnsContent::A { content: new_ip },
        proxied: Some(false),
        ttl: Some(UPDATE_TTL),
    }
}

/// Decides what is to be done about `record` when the host's public address
/// is `current_ip`.
pub fn plan_update(record: &DnsRecord, current_ip: Ipv4Address) -> (r: Result<
    Option<UpdateRequest>,
    RunError,
>)
    ensures
        plan_view(r) == planned(record@, current_ip),
{
    match record.content {
        DnsContent::A { content } => {
            if content == current_ip {
                Ok(None)
            } else {
                Ok(Some(update_request(record, current_ip)))
            }
        },
        DnsContent::Other => Err(RunError::TypeMismatch),
    }
}

/// Reads the provider's answer to the request to set the address `new_ip`.
/// The record in the answer is what the provider now holds: the update has
/// taken place only if it is an address record with that address.
pub fn update_cloudflare_dns_record(response: &DnsRecord, new_ip: Ipv4Address) -> (r: Result<
    Ipv4Address,
    RunError,
>)
    ensures
        r == confirmation(response@.content, new_ip),
{
    match response.content {
        DnsContent::A { content } => {
            if content != new_ip {
                return Err(RunError::Consistency);
            }
            Ok(content)
        },
        DnsContent::Other => Err(RunError::TypeMismatch),
    }
}

/// No request is made for a record that holds the host's public address,
/// and one is made for every address record that holds another.
pub proof fn law_request_only_for_stale_record(record: DnsRecordView, current_ip: Ipv4Address)
    ensures
        planned(record, current_ip) == Ok::<Option<UpdateRequestView>, RunError>(None)
            <==> record.content == (DnsContent::A { content: current_ip }),
        planned(record, current_ip) matches Ok(Some(_)) <==> record.content is A
            && record.content != (DnsContent::A { content: current_ip }),
{
}

/// An answer whose content is not the address asked for confirms nothing:
/// an address record with another address is an inconsistency, and no
/// answer of that kind gives `Ok`.
pub proof fn law_unconfirmed_update_fails(answer: DnsContent, new_ip: Ipv4Address)
    requires
        answer != (DnsContent::A { content: new_ip }),
    ensures
        confirmation(answer, new_ip) is Err,
        answer is A ==> confirmation(answer, new_ip) == Err::<Ipv4Address, RunError>(
            RunError::Consistency,
        ),
{
}

/// A confirmed update is the address asked for, and only an answer that
/// holds it confirms.
pub proof fn law_confirmation_is_exact(answer: DnsContent, new_ip: Ipv4Address)
    ensures
        confirmation(answer, new_ip) is Ok <==> answer == (DnsContent::A { content: new_ip }),
        confirmation(answer, new_ip) is Ok ==> confirmation(answer, new_ip)->Ok_0 == new_ip,
{
}

} // verus!
