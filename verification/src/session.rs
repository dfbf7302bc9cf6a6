//! The serial command/response loop of one sandboxed instance.
//!
//! The surrounding runtime owns the virtual machine: it instantiates the
//! guest, performs each `update` call, and hands the outcome back. The
//! decisions verified here are what the loop emits: one metadata event,
//! one readiness event, then exactly one response per command, in
//! submission order, each carrying the triggering command's correlation id
//! when the guest's own reply does not decode.

use vstd::prelude::*;
use vstd::string::StringExecFns;

use crate::codec::{decode_response, sp_decode_response};
use crate::protocol::{osv, Command, Response, ResponseV};

verus! {

broadcast use vstd::std_specs::vec::group_vec_axioms, vstd::seq::group_seq_axioms;

/// What one guest `update` call came to.
#[derive(Debug, PartialEq)]
pub enum GuestOutcome {
    /// The guest returned response text.
    Reply(String),
    /// The guest reported a failure string of its own.
    GuestFailure(String),
    /// The virtual machine faulted during the call.
    RuntimeFault(String),
}

#[verifier::ext_equal]
pub enum GuestOutcomeV {
    Reply(Seq<char>),
    GuestFailure(Seq<char>),
    RuntimeFault(Seq<char>),
}

impl View for GuestOutcome {
    type V = GuestOutcomeV;

    open spec fn view(&self) -> GuestOutcomeV {
        match self {
            GuestOutcome::Reply(s) => GuestOutcomeV::Reply(s@),
            GuestOutcome::GuestFailure(s) => GuestOutcomeV::GuestFailure(s@),
            GuestOutcome::RuntimeFault(s) => GuestOutcomeV::RuntimeFault(s@),
        }
    }
}

/// What a session emits: protocol responses, and one readiness signal. The
/// runtime pairs the readiness signal with the session's command sender.
#[derive(Debug, PartialEq)]
pub enum Event {
    Core(Response),
    Connected,
}

#[verifier::ext_equal]
pub enum EventV {
    Core(ResponseV),
    Connected,
}

impl View for Event {
    type V = EventV;

    open spec fn view(&self) -> EventV {
        match self {
            Event::Core(r) => EventV::Core(r@),
            Event::Connected => EventV::Connected,
        }
    }
}

/// The static identity a guest advertises.
#[derive(Debug, PartialEq)]
pub struct GuestMetadata {
    pub id: String,
    pub name: String,
    pub version: String,
    pub description: String,
}

/// The response one guest call outcome turns into: a decoded reply stands
/// as it is; an undecodable reply, a guest failure and a runtime fault each
/// become an error response carrying the triggering command's correlation
/// id. No outcome is fatal to the session.
pub open spec fn sp_interpret(o: GuestOutcomeV, cid: Option<Seq<char>>) -> ResponseV {
    match o {
        GuestOutcomeV::Reply(text) => match sp_decode_response(text) {
            Some(rv) => rv,
            None => (ResponseV::Error {
                message: "Failed to deserialize response"@,
                correlation_id: cid,
            }),
        },
        GuestOutcomeV::GuestFailure(m) => (ResponseV::Error {
            message: m,
            correlation_id: cid,
        }),
        GuestOutcomeV::RuntimeFault(m) => (ResponseV::Error {
            message: "Runtime error: "@ + m,
            correlation_id: cid,
        }),
    }
}

/// Turns one guest call outcome into the response the session emits.
pub fn interpret_outcome(outcome: GuestOutcome, correlation_id: Option<String>) -> (r: Response)
    ensures
        r@ == sp_interpret(outcome@, osv(correlation_id)),
{
    match outcome {
        GuestOutcome::Reply(text) => match decode_response(text.as_str()) {
            Some(resp) => resp,
            None => Response::Error {
                message: "Failed to deserialize response".to_owned(),
                correlation_id,
            },
        },
        GuestOutcome::GuestFailure(m) => Response::Error { message: m, correlation_id },
        GuestOutcome::RuntimeFault(m) => {
            let mut msg = "Runtime error: ".to_owned();
            msg.append(m.as_str());
            Response::Error { message: msg, correlation_id }
        },
    }
}

/// Processes one dequeued command's outcome: the correlation id is read
/// from the command before the guest call, so that every failure can echo
/// it.
pub fn process_command(cmd: &Command, outcome: GuestOutcome) -> (r: Response)
    ensures
        r@ == sp_interpret(outcome@, cmd.spec_correlation_id()),
{
    let correlation_id: Option<String> = match cmd.correlation_id() {
        Some(s) => Some(s.clone()),
        None => None,
    };
    interpret_outcome(outcome, correlation_id)
}

/// The whole output of one session, given what the guest answered to each
/// command: first the metadata response, then the readiness signal, then
/// one response per command, in submission order. When the command queue
/// closes the loop ends; closing it with no commands ever sent leaves
/// exactly the first two events.
///
/// This is the sequencing guarantee: the response to the i-th submitted
/// command stands at position i among the responses, so two commands
/// submitted in order are answered in that order.
pub fn run_session(meta: GuestMetadata, interactions: Vec<(Command, GuestOutcome)>) -> (events:
    Vec<Event>)
    ensures
        events@.len() == 2 + interactions@.len(),
        events@[0]@ == EventV::Core(
            ResponseV::Metadata {
                id: meta.id@,
                name: meta.name@,
                version: meta.version@,
                description: meta.description@,
            },
        ),
        events@[1]@ == EventV::Connected,
        forall|k: int|
            0 <= k < interactions@.len() ==> (#[trigger] events@[2 + k])@ == EventV::Core(
                sp_interpret(
                    interactions@[k].1@,
                    interactions@[k].0.spec_correlation_id(),
                ),
            ),
{
    let ghost all = interactions@;
    let mut events: Vec<Event> = Vec::new();
    events.push(
        Event::Core(
            Response::Metadata {
                id: meta.id,
                name: meta.name,
                version: meta.version,
                description: meta.description,
            },
        ),
    );
    events.push(Event::Connected);
    let mut rest = interactions;
    let mut i: usize = 0;
    let n0 = rest.len();
    proof {
        assert(all.subrange(0, all.len() as int) =~= all);
        assert(all.len() == n0);
    }
    while rest.len() > 0
        invariant
            all.len() <= usize::MAX,
            i + rest@.len() == all.len(),
            rest@ == all.subrange(i as int, all.len() as int),
            events@.len() == 2 + i,
            events@[0]@ == EventV::Core(
                ResponseV::Metadata {
                    id: meta.id@,
                    name: meta.name@,
                    version: meta.version@,
                    description: meta.description@,
                },
            ),
            events@[1]@ == EventV::Connected,
            forall|k: int|
                0 <= k < i ==> (#[trigger] events@[2 + k])@ == EventV::Core(
                    sp_interpret(all[k].1@, all[k].0.spec_correlation_id()),
                ),
        decreases rest@.len(),
    {
        let ghost rest0 = rest@;
        let (cmd, outcome) = rest.remove(0);
        proof {
            assert(rest0[0] == all[i as int]);
            assert(rest@ =~= all.subrange(i + 1, all.len() as int));
        }
        let r = process_command(&cmd, outcome);
        events.push(Event::Core(r));
        i = i + 1;
    }
    proof {
        assert(rest@.len() == 0);
    }
    events
}

} // verus!
