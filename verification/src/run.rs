//! A run as a state machine: the caller performs the requests, and the
//! machine decides, from each answer, what is done next.

use crate::address::Ipv4Address;
use crate::error::RunError;
use crate::record::{DnsContent, DnsRecord, DnsRecordView};
use crate::config::CfddnsConfig;
use crate::resolve::{
    fetch_cloudflare_dns_record, is_first_eligible, law_no_address_record,
    lemma_first_eligible_unique, resolved, views,
};
use crate::update::{
    confirmation, planned, request_for, update_cloudflare_dns_record, plan_update, UpdateRequest,
    UpdateRequestView,
};
use vstd::prelude::*;

verus! {

/// Where a run stands.
#[derive(Clone, Copy, Debug, PartialEq, Eq, Structural)]
pub enum State {
    /// The zone's records and the public address have been asked for.
    Fetching,
    /// The provider has been asked to set the record to `requested`.
    Updating { requested: Ipv4Address },
    /// The run is over.
    Finished,
}

/// What the caller reports to the machine.
#[derive(Debug, PartialEq, Eq)]
pub enum Event {
    /// Both requests of the first stage have ended: the zone's records and
    /// the host's public address, or why either could not be had.
    Fetched { records: Result<Vec<DnsRecord>, RunError>, current_ip: Result<Ipv4Address, RunError> },
    /// The update has ended: the record as the provider answered it, or why
    /// there is no answer.
    Updated { response: Result<DnsRecord, RunError> },
}

/// An event as a mathematical value.
pub enum EventView {
    Fetched { records: Result<Seq<DnsRecordView>, RunError>, current_ip: Result<Ipv4Address, RunError> },
    Updated { response: Result<DnsRecordView, RunError> },
}

impl View for Event {
    type V = EventView;

    open spec fn view(&self) -> EventView {
        match *self {
            Event::Fetched { records, current_ip } => EventView::Fetched {
                records: match records {
                    Ok(list) => Ok(views(list@)),
                    Err(e) => Err(e),
                },
                current_ip,
            },
            Event::Updated { response } => EventView::Updated {
                response: match response {
                    Ok(record) => Ok(record@),
                    Err(e) => Err(e),
                },
            },
        }
    }
}

/// What the machine tells the caller to do.
#[derive(Clone, Debug, PartialEq, Eq)]
pub enum Action {
    /// Send this request to the provider, and report the answer.
    Update(UpdateRequest),
    /// End with success: the record holds the public address already.
    Unchanged,
    /// End with success: the record has been set to this address.
    Updated(Ipv4Address),
    /// End with this error.
    Fail(RunError),
    /// Nothing: the event does not belong to the state, and is dropped.
    Ignore,
}

/// An action as a mathematical value.
pub enum ActionView {
    Update(UpdateRequestView),
    Unchanged,
    Updated(Ipv4Address),
    Fail(RunError),
    Ignore,
}

impl View for Action {
    type V = ActionView;

    open spec fn view(&self) -> ActionView {
        match *self {
            Action::Update(request) => ActionView::Update(request@),
            Action::Unchanged => ActionView::Unchanged,
            Action::Updated(ip) => ActionView::Updated(ip),
            Action::Fail(e) => ActionView::Fail(e),
            Action::Ignore => ActionView::Ignore,
        }
    }
}

/// The first decision of a run. A failure to get the public address is
/// reported before a failure to get the records; then the record is looked
/// up, and compared with the public address.
pub open spec fn after_fetch(
    name: Seq<char>,
    records: Result<Seq<DnsRecordView>, RunError>,
    current_ip: Result<Ipv4Address, RunError>,
) -> (State, ActionView) {
    match (current_ip, records) {
        (Err(e), _) => (State::Finished, ActionView::Fail(e)),
        (Ok(_), Err(e)) => (State::Finished, ActionView::Fail(e)),
        (Ok(ip), Ok(list)) => match resolved(list, name) {
            None => (State::Finished, ActionView::Fail(RunError::NotFound)),
            Some(record) => match planned(record, ip) {
                Err(e) => (State::Finished, ActionView::Fail(e)),
                Ok(None) => (State::Finished, ActionView::Unchanged),
                Ok(Some(request)) => (
                    State::Updating { requested: ip },
                    ActionView::Update(request),
                ),
            },
        },
    }
}

/// The last decision of a run, on the provider's answer to the update.
pub open spec fn after_update(requested: Ipv4Address, response: Result<DnsRecordView, RunError>) -> (
    State,
    ActionView,
) {
    match response {
        Err(e) => (State::Finished, ActionView::Fail(e)),
        Ok(record) => match confirmation(record.content, requested) {
            Ok(ip) => (State::Finished, ActionView::Updated(ip)),
            Err(e) => (State::Finished, ActionView::Fail(e)),
        },
    }
}

/// One step of the machine for the record named `name`: the next state and
/// the action. An event that does not belong to the state changes nothing.
pub open spec fn spec_step(name: Seq<char>, state: State, event: EventView) -> (State, ActionView) {
    match (state, event) {
        (State::Fetching, EventView::Fetched { records, current_ip }) => after_fetch(
            name,
            records,
            current_ip,
        ),
        (State::Updating { requested }, EventView::Updated { response }) => after_update(
            requested,
            response,
        ),
        _ => (state, ActionView::Ignore),
    }
}

/// How many updates the machine asks for when it is given these events in
/// turn, from `state` on.
pub open spec fn updates_asked(name: Seq<char>, state: State, events: Seq<EventView>) -> nat
    decreases events.len(),
{
    if events.len() == 0 {
        0
    } else {
        let (next, action) = spec_step(name, state, events[0]);
        let here: nat = if action is Update {
            1
        } else {
            0
        };
        here + updates_asked(name, next, events.drop_first())
    }
}

/// The state in which every run begins.
pub fn start() -> (state: State)
    ensures
        state == State::Fetching,
{
    State::Fetching
}

/// One step of the machine for the record that the configuration names.
pub fn step(config: &CfddnsConfig, state: State, event: Event) -> (r: (State, Action))
    ensures
        (r.0, r.1@) == spec_step(config@.record_name, state, event@),
{
    match (state, event) {
        (State::Fetching, Event::Fetched { records, current_ip }) => {
            let ip = match current_ip {
                Ok(ip) => ip,
                Err(e) => {
                    return (State::Finished, Action::Fail(e));
                },
            };
            let list = match records {
                Ok(list) => list,
                Err(e) => {
                    return (State::Finished, Action::Fail(e));
                },
            };
            let record = match fetch_cloudflare_dns_record(list, config) {
                Ok(record) => record,
                Err(e) => {
                    return (State::Finished, Action::Fail(e));
                },
            };
            match plan_update(&record, ip) {
                Err(e) => (State::Finished, Action::Fail(e)),
                Ok(None) => (State::Finished, Action::Unchanged),
                Ok(Some(request)) => (State::Updating { requested: ip }, Action::Update(request)),
            }
        },
        (State::Updating { requested }, Event::Updated { response }) => {
            let record = match response {
                Ok(record) => record,
                Err(e) => {
                    return (State::Finished, Action::Fail(e));
                },
            };
            match update_cloudflare_dns_record(&record, requested) {
                Ok(ip) => (State::Finished, Action::Updated(ip)),
                Err(e) => (State::Finished, Action::Fail(e)),
            }
        },
        (state, _) => (state, Action::Ignore),
    }
}

/// Where the zone's first address record of the name holds another address
/// than the host's public one, whatever other records stand before it, the
/// machine asks for one update, of that record to the public address; and
/// when the provider answers with the public address, the run ends with
/// success.
pub proof fn law_stale_record_is_updated(
    name: Seq<char>,
    records: Seq<DnsRecordView>,
    i: int,
    held: Ipv4Address,
    current_ip: Ipv4Address,
    answer: DnsRecordView,
)
    requires
        is_first_eligible(records, name, i),
        records[i].content == (DnsContent::A { content: held }),
        held != current_ip,
        answer.content == (DnsContent::A { content: current_ip }),
    ensures
        spec_step(
            name,
            State::Fetching,
            EventView::Fetched { records: Ok(records), current_ip: Ok(current_ip) },
        ) == (
            State::Updating { requested: current_ip },
            ActionView::Update(request_for(records[i], current_ip)),
        ),
        request_for(records[i], current_ip).content == (DnsContent::A { content: current_ip }),
        spec_step(
            name,
            State::Updating { requested: current_ip },
            EventView::Updated { response: Ok(answer) },
        ) == (State::Finished, ActionView::Updated(current_ip)),
{
    lemma_first_eligible_unique(records, name, i);
}

/// Whatever events a run is given, and in whatever order, the machine asks
/// for at most one update; and for none once it has left its first state.
pub proof fn law_at_most_one_update(name: Seq<char>, state: State, events: Seq<EventView>)
    ensures
        updates_asked(name, state, events) <= 1,
        !(state is Fetching) ==> updates_asked(name, state, events) == 0,
    decreases events.len(),
{
    if events.len() > 0 {
        let (next, action) = spec_step(name, state, events[0]);
        law_at_most_one_update(name, next, events.drop_first());
    }
}

/// Where the zone's first address record of the name holds the host's
/// public address, the run ends at once with success, and no update is
/// asked for, then or later.
pub proof fn law_current_record_is_left_alone(
    name: Seq<char>,
    records: Seq<DnsRecordView>,
    i: int,
    current_ip: Ipv4Address,
    later: Seq<EventView>,
)
    requires
        is_first_eligible(records, name, i),
        records[i].content == (DnsContent::A { content: current_ip }),
    ensures
        spec_step(
            name,
            State::Fetching,
            EventView::Fetched { records: Ok(records), current_ip: Ok(current_ip) },
        ) == (State::Finished, ActionView::Unchanged),
        updates_asked(
            name,
            State::Fetching,
            seq![EventView::Fetched { records: Ok(records), current_ip: Ok(current_ip) }] + later,
        ) == 0,
{
    lemma_first_eligible_unique(records, name, i);
    let first = EventView::Fetched { records: Ok(records), current_ip: Ok(current_ip) };
    let events = seq![first] + later;
    assert(events[0] == first);
    assert(events.drop_first() =~= later);
    law_at_most_one_update(name, State::Finished, later);
}

/// Where no record has the name, or none that has it is an address record,
/// the run ends with the error that the record was not found, and no update
/// is asked for, then or later.
pub proof fn law_missing_record_is_not_found(
    name: Seq<char>,
    records: Seq<DnsRecordView>,
    current_ip: Ipv4Address,
    later: Seq<EventView>,
)
    requires
        forall|i: int|
            0 <= i < records.len() && (#[trigger] records[i]).name == name ==> !(
            records[i].content is A),
    ensures
        resolved(records, name) is None,
        spec_step(
            name,
            State::Fetching,
            EventView::Fetched { records: Ok(records), current_ip: Ok(current_ip) },
        ) == (State::Finished, ActionView::Fail(RunError::NotFound)),
        updates_asked(
            name,
            State::Fetching,
            seq![EventView::Fetched { records: Ok(records), current_ip: Ok(current_ip) }] + later,
        ) == 0,
{
    law_no_address_record(records, name);
    let first = EventView::Fetched { records: Ok(records), current_ip: Ok(current_ip) };
    let events = seq![first] + later;
    assert(events[0] == first);
    assert(events.drop_first() =~= later);
    law_at_most_one_update(name, State::Finished, later);
}

/// Where the provider answers an update with an address record that holds
/// another address than the one asked for, the run ends with the error that
/// tells the inconsistency.
pub proof fn law_unconfirmed_update_ends_run(
    requested: Ipv4Address,
    answered: Ipv4Address,
    answer: DnsRecordView,
    name: Seq<char>,
)
    requires
        answer.content == (DnsContent::A { content: answered }),
        answered != requested,
    ensures
        spec_step(
            name,
            State::Updating { requested },
            EventView::Updated { response: Ok(answer) },
        ) == (State::Finished, ActionView::Fail(RunError::Consistency)),
{
}

} // verus!
