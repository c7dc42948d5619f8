//! Routing of inbound broker messages.
//!
//! A message is classified by an exact match of its topic against a fixed
//! table and then either becomes a status event for the display, feeds the
//! firmware transfer, confirms the running firmware, orders a rollback, or
//! is dropped.

use crate::command::{spec_halts, Command, Fatal};
use crate::ota::{Details, OtaAction, OtaState};
use crate::state::{Metro, StateEvent, StatusRecord, Tram};
use vstd::prelude::*;
use vstd::string::*;
use vstd::utf8::*;

verus! {

/// The kinds of status record that the device tracks.
#[derive(Clone, Copy, Debug, PartialEq, Eq)]
pub enum StatusKind {
    Tram,
    Metro,
}

/// Where an inbound message belongs.
#[derive(Clone, Copy, Debug, PartialEq, Eq)]
pub enum Route {
    /// A status record of the given kind, as JSON.
    Status(StatusKind),
    /// A piece of a firmware image.
    OtaData,
    /// The verdict on the firmware that is running.
    OtaConfirm,
    /// The order to return to the previous firmware.
    OtaRollback,
    /// Nothing this device listens for.
    Unknown,
}

/// The topics that the device subscribes to, in the order in which it does.
#[derive(Clone, Copy, Debug, PartialEq, Eq)]
pub enum Topic {
    Tram,
    Metro,
    OtaData,
    OtaConfirm,
    OtaRollback,
}

/// Topic on which tram records arrive.
pub const TOPIC_TRAM: &'static str = "villamos";

/// Topic on which metro records arrive.
pub const TOPIC_METRO: &'static str = "metro";

/// Topic on which firmware images arrive.
pub const TOPIC_OTA_DATA: &'static str = "tramcast/ota/data";

/// Topic on which a new firmware is confirmed.
pub const TOPIC_OTA_CONFIRM: &'static str = "tramcast/ota/confirm";

/// Topic on which a rollback is ordered.
pub const TOPIC_OTA_ROLLBACK: &'static str = "tramcast/rollback";

/// Topic on which the device announces that it is up.
pub const TOPIC_OTA_RESULT: &'static str = "tramcast/ota/result";

/// How hard the broker tries to deliver a message.
#[derive(Clone, Copy, Debug, PartialEq, Eq)]
pub enum Qos {
    AtMostOnce,
    AtLeastOnce,
    ExactlyOnce,
}

/// The payload that confirms a firmware, and that the device announces
/// itself with: the seven ASCII letters of the word "success".
pub open spec fn spec_success_token() -> Seq<u8> {
    seq![115u8, 117u8, 99u8, 99u8, 101u8, 115u8, 115u8]
}

/// The route of a message published on `topic`; `None` is the unnamed topic
/// that the continuation of a split message arrives on. Matching is exact
/// and case-sensitive.
pub open spec fn spec_classify(topic: Option<Seq<char>>) -> Route {
    match topic {
        None => Route::OtaData,
        Some(t) => if t == TOPIC_TRAM@ {
            Route::Status(StatusKind::Tram)
        } else if t == TOPIC_METRO@ {
            Route::Status(StatusKind::Metro)
        } else if t == TOPIC_OTA_DATA@ {
            Route::OtaData
        } else if t == TOPIC_OTA_CONFIRM@ {
            Route::OtaConfirm
        } else if t == TOPIC_OTA_ROLLBACK@ {
            Route::OtaRollback
        } else {
            Route::Unknown
        },
    }
}

/// The view of an optional topic.
pub open spec fn spec_topic_view(topic: Option<&str>) -> Option<Seq<char>> {
    match topic {
        None => None,
        Some(t) => Some(t@),
    }
}

/// Two byte strings hold the same bytes.
pub fn same_bytes(a: &[u8], b: &[u8]) -> (r: bool)
    ensures
        r == (a@ == b@),
{
    if a.len() != b.len() {
        return false;
    }
    let mut i: usize = 0;
    while i < a.len()
        invariant
            a.len() == b.len(),
            i <= a.len(),
            forall|k: int| 0 <= k < i ==> a@[k] == b@[k],
        decreases a.len() - i,
    {
        if a[i] != b[i] {
            return false;
        }
        i += 1;
    }
    assert(a@ =~= b@);
    true
}

/// Two strings hold the same text.
pub fn same_text(a: &str, b: &str) -> (r: bool)
    ensures
        r == (a@ == b@),
{
    let r = same_bytes(a.as_bytes(), b.as_bytes());
    proof {
        encode_utf8_decode_utf8(a@);
        encode_utf8_decode_utf8(b@);
    }
    r
}

/// Finds the route of a message from its topic.
pub fn classify(topic: Option<&str>) -> (r: Route)
    ensures
        r == spec_classify(spec_topic_view(topic)),
{
    match topic {
        None => Route::OtaData,
        Some(t) => {
            if same_text(t, TOPIC_TRAM) {
                Route::Status(StatusKind::Tram)
            } else if same_text(t, TOPIC_METRO) {
                Route::Status(StatusKind::Metro)
            } else if same_text(t, TOPIC_OTA_DATA) {
                Route::OtaData
            } else if same_text(t, TOPIC_OTA_CONFIRM) {
                Route::OtaConfirm
            } else if same_text(t, TOPIC_OTA_ROLLBACK) {
                Route::OtaRollback
            } else {
                Route::Unknown
            }
        },
    }
}

/// The payload is exactly the token that confirms a firmware.
pub fn is_success_token(payload: &[u8]) -> (r: bool)
    ensures
        r == (payload@ == spec_success_token()),
{
    let ok = payload.len() == 7 && payload[0] == 115 && payload[1] == 117 && payload[2] == 99
        && payload[3] == 99 && payload[4] == 101 && payload[5] == 115 && payload[6] == 115;
    proof {
        if ok {
            assert(payload@ =~= spec_success_token());
        } else if payload@.len() == 7 {
            assert(spec_success_token()[0] == 115u8);
            assert(spec_success_token()[1] == 117u8);
            assert(spec_success_token()[2] == 99u8);
            assert(spec_success_token()[3] == 99u8);
            assert(spec_success_token()[4] == 101u8);
            assert(spec_success_token()[5] == 115u8);
            assert(spec_success_token()[6] == 115u8);
        }
    }
    ok
}

/// The name of a topic of the subscription table.
pub fn topic_name(topic: Topic) -> (r: &'static str)
    ensures
        r@ == spec_topic_name(topic),
{
    match topic {
        Topic::Tram => TOPIC_TRAM,
        Topic::Metro => TOPIC_METRO,
        Topic::OtaData => TOPIC_OTA_DATA,
        Topic::OtaConfirm => TOPIC_OTA_CONFIRM,
        Topic::OtaRollback => TOPIC_OTA_ROLLBACK,
    }
}

/// The name of a topic of the subscription table.
pub open spec fn spec_topic_name(topic: Topic) -> Seq<char> {
    match topic {
        Topic::Tram => TOPIC_TRAM@,
        Topic::Metro => TOPIC_METRO@,
        Topic::OtaData => TOPIC_OTA_DATA@,
        Topic::OtaConfirm => TOPIC_OTA_CONFIRM@,
        Topic::OtaRollback => TOPIC_OTA_ROLLBACK@,
    }
}

/// A message as the broker delivers it.
#[derive(Clone, Copy, Debug, PartialEq, Eq)]
pub struct Inbound<'a> {
    /// The topic; absent on the continuation of a split message.
    pub topic: Option<&'a str>,
    /// The bytes of this message or of this piece of it.
    pub payload: &'a [u8],
    /// Where the bytes belong in a split message.
    pub details: Details,
    /// The record that the payload spells as JSON, where the topic is a
    /// status topic and the payload is well formed; absent otherwise.
    pub status: Option<StatusRecord>,
}

/// The event that announces a record of the given kind.
pub open spec fn spec_status_event(kind: StatusKind, record: StatusRecord) -> StateEvent {
    match kind {
        StatusKind::Tram => StateEvent::TramStateChanged(
            Tram { depart_at: record.depart_at, time_left_ms: record.time_left_ms },
        ),
        StatusKind::Metro => StateEvent::MetroStateChanged(
            Metro { depart_at: record.depart_at, time_left_ms: record.time_left_ms },
        ),
    }
}

/// The commands that carry out the answer of the transfer machine to a chunk.
/// After a finalize the device restarts; the list goes on only if it did not.
pub open spec fn spec_ota_commands(action: OtaAction) -> Seq<Command> {
    match action {
        OtaAction::BeginAndWrite => seq![Command::OtaBegin, Command::OtaWrite, Command::NextEvent],
        OtaAction::Write => seq![Command::OtaWrite, Command::NextEvent],
        OtaAction::WriteAndFinalize => seq![
            Command::OtaWrite,
            Command::OtaFinalize,
            Command::Halt(Fatal::RestartReturned),
        ],
        OtaAction::Finalize => seq![Command::OtaFinalize, Command::Halt(Fatal::RestartReturned)],
        OtaAction::Abort(violation) => seq![Command::Halt(Fatal::Protocol(violation))],
    }
}

/// What a message does: the state of the firmware transfer after it, and the
/// commands it causes.
///
/// A status topic puts its record on the bus, or nothing if the payload was
/// malformed. The firmware topic and the unnamed topic feed the transfer
/// machine. The confirm topic marks the firmware valid if and only if the
/// payload is the success token. The rollback topic orders the rollback,
/// whatever the payload. Every other topic is dropped.
pub open spec fn spec_route(
    ota: OtaState,
    topic: Option<Seq<char>>,
    payload: Seq<u8>,
    details: Details,
    status: Option<StatusRecord>,
) -> (OtaState, Seq<Command>) {
    match spec_classify(topic) {
        Route::Status(kind) => (
            ota,
            match status {
                Some(record) => seq![
                    Command::Emit(spec_status_event(kind, record)),
                    Command::NextEvent,
                ],
                None => seq![Command::NextEvent],
            },
        ),
        Route::OtaData => {
            let (next, action) = ota.spec_on_chunk(details, payload.len() as usize);
            (next, spec_ota_commands(action))
        },
        Route::OtaConfirm => (
            ota,
            if payload == spec_success_token() {
                seq![Command::MarkValid, Command::NextEvent]
            } else {
                seq![Command::NextEvent]
            },
        ),
        Route::OtaRollback => (
            ota,
            seq![Command::RollbackAndReboot, Command::Halt(Fatal::RollbackFailed)],
        ),
        Route::Unknown => (ota, seq![Command::NextEvent]),
    }
}

/// The event that announces a record of the given kind.
pub fn status_event(kind: StatusKind, record: StatusRecord) -> (r: StateEvent)
    ensures
        r == spec_status_event(kind, record),
{
    match kind {
        StatusKind::Tram => StateEvent::TramStateChanged(
            Tram { depart_at: record.depart_at, time_left_ms: record.time_left_ms },
        ),
        StatusKind::Metro => StateEvent::MetroStateChanged(
            Metro { depart_at: record.depart_at, time_left_ms: record.time_left_ms },
        ),
    }
}

/// The commands that carry out the answer of the transfer machine to a chunk.
pub fn ota_commands(action: OtaAction) -> (r: Vec<Command>)
    ensures
        r@ == spec_ota_commands(action),
{
    let mut out: Vec<Command> = Vec::new();
    match action {
        OtaAction::BeginAndWrite => {
            out.push(Command::OtaBegin);
            out.push(Command::OtaWrite);
            out.push(Command::NextEvent);
        },
        OtaAction::Write => {
            out.push(Command::OtaWrite);
            out.push(Command::NextEvent);
        },
        OtaAction::WriteAndFinalize => {
            out.push(Command::OtaWrite);
            out.push(Command::OtaFinalize);
            out.push(Command::Halt(Fatal::RestartReturned));
        },
        OtaAction::Finalize => {
            out.push(Command::OtaFinalize);
            out.push(Command::Halt(Fatal::RestartReturned));
        },
        OtaAction::Abort(violation) => {
            out.push(Command::Halt(Fatal::Protocol(violation)));
        },
    }
    assert(out@ =~= spec_ota_commands(action));
    out
}

/// Routes one inbound message.
pub fn route(ota: OtaState, message: Inbound) -> (r: (OtaState, Vec<Command>))
    ensures
        (r.0, r.1@) == spec_route(
            ota,
            spec_topic_view(message.topic),
            message.payload@,
            message.details,
            message.status,
        ),
        ota.wf() ==> r.0.wf(),
{
    let mut out: Vec<Command> = Vec::new();
    match classify(message.topic) {
        Route::Status(kind) => {
            match message.status {
                Some(record) => {
                    out.push(Command::Emit(status_event(kind, record)));
                    out.push(Command::NextEvent);
                },
                None => {
                    out.push(Command::NextEvent);
                },
            }
            assert(out@ =~= spec_route(
                ota,
                spec_topic_view(message.topic),
                message.payload@,
                message.details,
                message.status,
            ).1);
            (ota, out)
        },
        Route::OtaData => {
            let (next, action) = ota.on_chunk(message.details, message.payload.len());
            (next, ota_commands(action))
        },
        Route::OtaConfirm => {
            if is_success_token(message.payload) {
                out.push(Command::MarkValid);
            }
            out.push(Command::NextEvent);
            assert(out@ =~= spec_route(
                ota,
                spec_topic_view(message.topic),
                message.payload@,
                message.details,
                message.status,
            ).1);
            (ota, out)
        },
        Route::OtaRollback => {
            out.push(Command::RollbackAndReboot);
            out.push(Command::Halt(Fatal::RollbackFailed));
            assert(out@ =~= spec_route(
                ota,
                spec_topic_view(message.topic),
                message.payload@,
                message.details,
                message.status,
            ).1);
            (ota, out)
        },
        Route::Unknown => {
            out.push(Command::NextEvent);
            assert(out@ =~= spec_route(
                ota,
                spec_topic_view(message.topic),
                message.payload@,
                message.details,
                message.status,
            ).1);
            (ota, out)
        },
    }
}

/// The delivery that the device asks for on the topics it subscribes to.
pub fn subscribe_qos() -> (r: Qos)
    ensures
        r == Qos::ExactlyOnce,
{
    Qos::ExactlyOnce
}

/// The delivery that the device asks for when it announces itself. The
/// announcement is not retained by the broker.
pub fn announce_qos() -> (r: Qos)
    ensures
        r == Qos::AtMostOnce,
{
    Qos::AtMostOnce
}

/// The token that confirms a firmware, which is also what the device
/// announces itself with.
pub fn success_token() -> (r: Vec<u8>)
    ensures
        r@ == spec_success_token(),
{
    let mut out: Vec<u8> = Vec::new();
    out.push(115);
    out.push(117);
    out.push(99);
    out.push(99);
    out.push(101);
    out.push(115);
    out.push(115);
    assert(out@ =~= spec_success_token());
    out
}

/// The success token is the word "success" in ASCII.
pub proof fn law_success_token_spells_success()
    ensures
        spec_success_token() == Seq::new(7, |i: int| "success"@[i] as u8),
        "success"@.len() == 7,
{
    reveal_strlit("success");
    assert(spec_success_token() =~= Seq::new(7, |i: int| "success"@[i] as u8));
}

/// The five topics of the table are five different texts, and none of them
/// is the topic that the device announces itself on.
pub proof fn law_topics_differ()
    ensures
        spec_classify(Some(TOPIC_TRAM@)) == Route::Status(StatusKind::Tram),
        spec_classify(Some(TOPIC_METRO@)) == Route::Status(StatusKind::Metro),
        spec_classify(Some(TOPIC_OTA_DATA@)) == Route::OtaData,
        spec_classify(Some(TOPIC_OTA_CONFIRM@)) == Route::OtaConfirm,
        spec_classify(Some(TOPIC_OTA_ROLLBACK@)) == Route::OtaRollback,
        spec_classify(Some(TOPIC_OTA_RESULT@)) == Route::Unknown,
{
    reveal_strlit("villamos");
    reveal_strlit("metro");
    reveal_strlit("tramcast/ota/data");
    reveal_strlit("tramcast/ota/confirm");
    reveal_strlit("tramcast/rollback");
    reveal_strlit("tramcast/ota/result");
    assert(TOPIC_TRAM@.len() == 8);
    assert(TOPIC_METRO@.len() == 5);
    assert(TOPIC_OTA_DATA@.len() == 17);
    assert(TOPIC_OTA_CONFIRM@.len() == 20);
    assert(TOPIC_OTA_ROLLBACK@.len() == 17);
    assert(TOPIC_OTA_RESULT@.len() == 19);
    assert(TOPIC_OTA_ROLLBACK@[9] == 'r');
    assert(TOPIC_OTA_DATA@[9] == 'o');
}

/// A message on the rollback topic orders the rollback exactly once,
/// whatever it carries and whatever the state of a transfer, which it
/// leaves alone.
pub proof fn law_rollback_ignores_payload(
    ota: OtaState,
    payload: Seq<u8>,
    details: Details,
    status: Option<StatusRecord>,
)
    ensures
        spec_route(ota, Some(TOPIC_OTA_ROLLBACK@), payload, details, status) == (
            ota,
            seq![Command::RollbackAndReboot, Command::Halt(Fatal::RollbackFailed)],
        ),
{
    law_topics_differ();
}

/// A message on the confirm topic marks the firmware valid if its payload
/// is the success token, and does nothing at all if it is anything else.
pub proof fn law_confirm_needs_exact_token(
    ota: OtaState,
    payload: Seq<u8>,
    details: Details,
    status: Option<StatusRecord>,
)
    ensures
        spec_route(ota, Some(TOPIC_OTA_CONFIRM@), payload, details, status) == (
            ota,
            if payload == spec_success_token() {
                seq![Command::MarkValid, Command::NextEvent]
            } else {
                seq![Command::NextEvent]
            },
        ),
{
    law_topics_differ();
}

/// A record whose departure is sound makes an event that a sound snapshot
/// can take in and stay sound.
pub proof fn law_status_event_keeps_instants(kind: StatusKind, record: StatusRecord)
    ensures
        crate::display::Display::spec_event_wf(spec_status_event(kind, record)) == record.wf(),
{
}

/// The commands for a chunk ask for a finalize exactly when the answer of
/// the transfer machine does, and then once; they ask for a write exactly
/// when the answer does; and they stop the process exactly when the
/// transfer is over, for better or worse.
pub proof fn law_ota_commands_follow_action(action: OtaAction)
    ensures
        spec_ota_commands(action).contains(Command::OtaFinalize) <==> action.spec_finalizes(),
        spec_ota_commands(action).contains(Command::OtaWrite) <==> action.spec_writes(),
        spec_halts(spec_ota_commands(action)) <==> action.spec_finalizes() || action is Abort,
        forall|i: int, j: int|
            0 <= i < j < spec_ota_commands(action).len() ==> !(spec_ota_commands(action)[i]
                == Command::OtaFinalize && spec_ota_commands(action)[j] == Command::OtaFinalize),
{
    let commands = spec_ota_commands(action);
    match action {
        OtaAction::BeginAndWrite => {
            assert(commands[1] == Command::OtaWrite);
        },
        OtaAction::Write => {
            assert(commands[0] == Command::OtaWrite);
        },
        OtaAction::WriteAndFinalize => {
            assert(commands[0] == Command::OtaWrite);
            assert(commands[1] == Command::OtaFinalize);
        },
        OtaAction::Finalize => {
            assert(commands[0] == Command::OtaFinalize);
        },
        OtaAction::Abort(_) => {},
    }
}

} // verus!
