//! Finding the record to keep up to date among the records of a zone.

use crate::config::CfddnsConfig;
use crate::error::RunError;
use crate::record::{DnsContent, DnsRecord, DnsRecordView};
use vstd::prelude::*;
use vstd::string::StringExecFns;

verus! {

/// The records of a list as mathematical values.
pub open spec fn views(records: Seq<DnsRecord>) -> Seq<DnsRecordView> {
    records.map_values(|r: DnsRecord| r@)
}

/// The record can be kept up to date under the name: it has the name, and
/// it is an address record.
pub open spec fn is_eligible(record: DnsRecordView, name: Seq<char>) -> bool {
    record.name == name && record.content is A
}

/// The record has the name, but is of another type than an address record.
pub open spec fn is_of_other_type(record: DnsRecordView, name: Seq<char>) -> bool {
    record.name == name && !(record.content is A)
}

/// The record at `i` is eligible, and no record before it is.
pub open spec fn is_first_eligible(records: Seq<DnsRecordView>, name: Seq<char>, i: int) -> bool {
    &&& 0 <= i < records.len()
    &&& is_eligible(records[i], name)
    &&& forall|j: int| 0 <= j < i ==> !is_eligible(#[trigger] records[j], name)
}

/// Some record is eligible.
pub open spec fn has_eligible(records: Seq<DnsRecordView>, name: Seq<char>) -> bool {
    exists|i: int| 0 <= i < records.len() && is_eligible(#[trigger] records[i], name)
}

/// Some record has the name and is of another type than an address record.
pub open spec fn has_other_type(records: Seq<DnsRecordView>, name: Seq<char>) -> bool {
    exists|i: int| 0 <= i < records.len() && is_of_other_type(#[trigger] records[i], name)
}

/// The place of the first eligible record, where there is one.
pub open spec fn first_eligible(records: Seq<DnsRecordView>, name: Seq<char>) -> int {
    choose|i: int| is_first_eligible(records, name, i)
}

/// The record that a lookup gives: the first address record of the name.
/// Records of the name that are of another type are passed over.
pub open spec fn resolved(records: Seq<DnsRecordView>, name: Seq<char>) -> Option<
    DnsRecordView,
> {
    if has_eligible(records, name) {
        Some(records[first_eligible(records, name)])
    } else {
        None
    }
}

/// The view of an optional record.
pub open spec fn record_of(r: Option<DnsRecord>) -> Option<DnsRecordView> {
    match r {
        Some(r) => Some(r@),
        None => None,
    }
}

/// Among records of which one is eligible, one is the first.
pub proof fn lemma_first_eligible_exists(records: Seq<DnsRecordView>, name: Seq<char>, k: int)
    requires
        0 <= k < records.len(),
        is_eligible(records[k], name),
    ensures
        is_first_eligible(records, name, first_eligible(records, name)),
        first_eligible(records, name) <= k,
        has_eligible(records, name),
    decreases k,
{
    if exists|j: int| 0 <= j < k && is_eligible(#[trigger] records[j], name) {
        let j = choose|j: int| 0 <= j < k && is_eligible(#[trigger] records[j], name);
        lemma_first_eligible_exists(records, name, j);
    } else {
        assert(is_first_eligible(records, name, k));
        let f = first_eligible(records, name);
        assert(is_first_eligible(records, name, f));
        if f > k {
            assert(!is_eligible(records[k], name));
        }
    }
}

/// The first eligible record is the one and only first.
pub proof fn lemma_first_eligible_unique(records: Seq<DnsRecordView>, name: Seq<char>, i: int)
    requires
        is_first_eligible(records, name, i),
    ensures
        first_eligible(records, name) == i,
        has_eligible(records, name),
        resolved(records, name) == Some(records[i]),
{
    lemma_first_eligible_exists(records, name, i);
    let f = first_eligible(records, name);
    if f < i {
        assert(!is_eligible(records[f], name));
    }
}

/// Looks the name up among the records: the first address record of that
/// name. There is none exactly where the list holds no address record of
/// the name.
pub fn find_matching_dns_record(records: Vec<DnsRecord>, name: &str) -> (r: Option<DnsRecord>)
    ensures
        record_of(r) == resolved(views(records@), name@),
        match r {
            Some(record) => exists|i: int|
                is_first_eligible(views(records@), name@, i) && record@ == views(records@)[i],
            None => forall|i: int|
                0 <= i < records@.len() ==> !is_eligible(#[trigger] views(records@)[i], name@),
        },
{
    let mut list = records;
    let wanted = String::from_str(name);
    let ghost all = views(records@);
    let n = list.len();
    let mut i: usize = 0;
    while i < n
        invariant
            list@ == records@,
            n == list@.len(),
            all == views(records@),
            wanted@ == name@,
            i <= n,
            forall|j: int| 0 <= j < i ==> !is_eligible(#[trigger] all[j], name@),
        decreases n - i,
    {
        let eligible = list[i].name == wanted && match list[i].content {
            DnsContent::A { content: _ } => true,
            DnsContent::Other => false,
        };
        proof {
            assert(all[i as int] == records@[i as int]@);
        }
        if eligible {
            proof {
                assert(is_first_eligible(all, name@, i as int));
                lemma_first_eligible_unique(all, name@, i as int);
            }
            let record = list.remove(i);
            assert(record@ == all[i as int]);
            return Some(record);
        }
        i += 1;
    }
    proof {
        assert forall|j: int| 0 <= j < all.len() implies !is_eligible(#[trigger] all[j], name@) by {}
        assert(!has_eligible(all, name@));
    }
    None
}

/// Whether the list holds a record of the name that is of another type than
/// an address record. Such a record cannot be kept up to date, which is
/// worth a warning where the lookup finds nothing.
pub fn has_record_of_other_type(records: &Vec<DnsRecord>, name: &str) -> (b: bool)
    ensures
        b == has_other_type(views(records@), name@),
{
    let wanted = String::from_str(name);
    let ghost all = views(records@);
    let n = records.len();
    let mut i: usize = 0;
    while i < n
        invariant
            n == records@.len(),
            all == views(records@),
            wanted@ == name@,
            i <= n,
            forall|j: int| 0 <= j < i ==> !is_of_other_type(#[trigger] all[j], name@),
        decreases n - i,
    {
        let other = records[i].name == wanted && match records[i].content {
            DnsContent::A { content: _ } => false,
            DnsContent::Other => true,
        };
        proof {
            assert(all[i as int] == records@[i as int]@);
        }
        if other {
            assert(is_of_other_type(all[i as int], name@));
            return true;
        }
        i += 1;
    }
    false
}

/// The record to keep up to date: the first address record of the
/// configured name among the zone's records. Where the zone holds no
/// address record of that name, the record is not found.
pub fn fetch_cloudflare_dns_record(records: Vec<DnsRecord>, config: &CfddnsConfig) -> (r: Result<
    DnsRecord,
    RunError,
>)
    ensures
        match resolved(views(records@), config@.record_name) {
            Some(record) => r is Ok && r->Ok_0@ == record,
            None => r == Err::<DnsRecord, RunError>(RunError::NotFound),
        },
        r is Ok <==> has_eligible(views(records@), config@.record_name),
{
    match find_matching_dns_record(records, config.record_name.as_str()) {
        Some(record) => Ok(record),
        None => Err(RunError::NotFound),
    }
}

/// Where the list holds an address record of the name, the lookup gives
/// one: the first of them, whatever other records of the name stand before
/// it.
pub proof fn law_eligible_record_is_found(records: Seq<DnsRecordView>, name: Seq<char>, k: int)
    requires
        0 <= k < records.len(),
        records[k].name == name,
        records[k].content is A,
    ensures
        resolved(records, name) is Some,
        is_first_eligible(records, name, first_eligible(records, name)),
        resolved(records, name)->0 == records[first_eligible(records, name)],
        resolved(records, name)->0.name == name,
        resolved(records, name)->0.content is A,
{
    lemma_first_eligible_exists(records, name, k);
}

/// Where no record that has the name is an address record, and so also
/// where no record has the name, the lookup gives nothing.
pub proof fn law_no_address_record(records: Seq<DnsRecordView>, name: Seq<char>)
    requires
        forall|i: int|
            0 <= i < records.len() && (#[trigger] records[i]).name == name ==> !(
            records[i].content is A),
    ensures
        resolved(records, name) is None,
{
    if has_eligible(records, name) {
        let k = choose|i: int| 0 <= i < records.len() && is_eligible(#[trigger] records[i], name);
        assert(records[k].name == name);
    }
}

/// The lookup gives a record exactly where the list holds an address
/// record of the name.
pub proof fn law_found_iff_eligible(records: Seq<DnsRecordView>, name: Seq<char>)
    ensures
        resolved(records, name) is Some <==> exists|i: int|
            0 <= i < records.len() && (#[trigger] records[i]).name == name
                && records[i].content is A,
{
    if resolved(records, name) is Some {
        let k = choose|i: int| 0 <= i < records.len() && is_eligible(#[trigger] records[i], name);
        assert(records[k].name == name && records[k].content is A);
    }
    if exists|i: int|
        0 <= i < records.len() && (#[trigger] records[i]).name == name && records[i].content is A {
        let k = choose|i: int|
            0 <= i < records.len() && (#[trigger] records[i]).name == name
                && records[i].content is A;
        lemma_first_eligible_exists(records, name, k);
    }
}

} // verus!
