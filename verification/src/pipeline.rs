//! The supervisory pipeline of the network side.
//!
//! One epoch runs from the wireless link through the clock to the broker
//! session: the link is checked and, if down, brought up; the clock is
//! polled until it is set; the session is opened and its events are served
//! until it ends, which starts the next epoch. The pipeline performs no
//! outside work itself. Each step answers one input with the commands to
//! carry out, the last of which yields the next input.

use crate::command::{halts, spec_halts, Command, Fatal, SYNC_POLL_SECONDS};
use crate::ota::{law_orderly_delivery_completes_once, spec_orderly, Chunk, OtaAction, OtaState};
use crate::router::{
    route, spec_classify, spec_ota_commands, spec_route, spec_topic_view, Inbound, Route, Topic,
};
use crate::state::StateEvent;
use vstd::prelude::*;

verus! {

/// Where in the epoch the pipeline stands.
#[derive(Clone, Copy, Debug, PartialEq, Eq)]
pub enum Stage {
    /// The state of the link has been asked for.
    Link,
    /// The link is down and association is under way.
    Associating,
    /// The link is up and the clock is being polled.
    Syncing,
    /// The broker session is open and its events are served.
    Session,
    /// The process is to stop. Terminal.
    Halted,
}

/// An event of the broker session.
#[derive(Clone, Copy, Debug, PartialEq, Eq)]
pub enum BrokerEvent<'a> {
    /// The broker accepted the session.
    Connected,
    /// The broker or the network ended the session.
    Disconnected,
    /// A message, or a piece of one, arrived.
    Received(Inbound<'a>),
    /// A subscription was acknowledged.
    Subscribed,
    /// The end of a subscription was acknowledged.
    Unsubscribed,
    /// Anything else, a transport error included.
    Other,
}

/// What the driver reports back.
#[derive(Clone, Copy, Debug, PartialEq, Eq)]
pub enum Input<'a> {
    /// The answer to a link check: the link is up or down.
    LinkStatus(bool),
    /// Association completed and an address is assigned.
    LinkUp,
    /// Association failed in a way that no retry will mend.
    LinkFailed,
    /// The answer to a clock poll: synchronized or not yet.
    SyncStatus(bool),
    /// The next event of the broker session.
    Broker(BrokerEvent<'a>),
    /// The session has no further events.
    SessionClosed,
}

/// The state of the pipeline: its stage, and the firmware transfer that is
/// live within the current session, if any.
#[derive(Clone, Copy, Debug, PartialEq, Eq)]
pub struct Pipeline {
    pub stage: Stage,
    pub ota: OtaState,
}

/// The state that a message leaves the session in: stopped if the commands
/// end in a halt, serving otherwise.
pub open spec fn spec_stage_after(commands: Seq<Command>) -> Stage {
    if spec_halts(commands) {
        Stage::Halted
    } else {
        Stage::Session
    }
}

/// The commands that answer the broker's acceptance of the session:
/// subscribe to every topic of the table, announce the device, and tell the
/// display.
pub open spec fn spec_on_connected() -> Seq<Command> {
    seq![
        Command::Subscribe(Topic::Tram),
        Command::Subscribe(Topic::Metro),
        Command::Subscribe(Topic::OtaData),
        Command::Subscribe(Topic::OtaConfirm),
        Command::Subscribe(Topic::OtaRollback),
        Command::AnnounceReady,
        Command::Emit(StateEvent::MqttConnected(true)),
        Command::NextEvent,
    ]
}

impl Pipeline {
    /// Outside a session no transfer is live, and a live transfer is sound.
    pub open spec fn wf(self) -> bool {
        &&& self.ota.wf()
        &&& self.stage != Stage::Session && self.stage != Stage::Halted ==> self.ota
            == OtaState::Idle
    }

    /// The state in which the pipeline starts: the link is to be checked.
    pub open spec fn spec_new() -> Pipeline {
        Pipeline { stage: Stage::Link, ota: OtaState::Idle }
    }

    /// The transition function. An input that the stage does not wait for
    /// changes nothing and causes nothing.
    pub open spec fn spec_step(self, input: Input) -> (Pipeline, Seq<Command>) {
        match (self.stage, input) {
            (Stage::Link, Input::LinkStatus(true)) => (
                Pipeline { stage: Stage::Syncing, ota: OtaState::Idle },
                seq![Command::StartSync, Command::PollSync],
            ),
            (Stage::Link, Input::LinkStatus(false)) => (
                Pipeline { stage: Stage::Associating, ota: OtaState::Idle },
                seq![Command::Emit(StateEvent::WifiConnected(false)), Command::Associate],
            ),
            (Stage::Associating, Input::LinkUp) => (
                Pipeline { stage: Stage::Syncing, ota: OtaState::Idle },
                seq![
                    Command::Emit(StateEvent::WifiConnected(true)),
                    Command::StartSync,
                    Command::PollSync,
                ],
            ),
            (Stage::Associating, Input::LinkFailed) => (
                Pipeline { stage: Stage::Halted, ota: OtaState::Idle },
                seq![Command::Halt(Fatal::AssociationFailed)],
            ),
            (Stage::Syncing, Input::SyncStatus(false)) => (
                self,
                seq![Command::Sleep(SYNC_POLL_SECONDS), Command::PollSync],
            ),
            (Stage::Syncing, Input::SyncStatus(true)) => (
                Pipeline { stage: Stage::Session, ota: OtaState::Idle },
                seq![
                    Command::Emit(StateEvent::TimeSynced(true)),
                    Command::OpenSession,
                    Command::NextEvent,
                ],
            ),
            (Stage::Session, Input::Broker(BrokerEvent::Connected)) => (self, spec_on_connected()),
            (Stage::Session, Input::Broker(BrokerEvent::Disconnected)) => (
                Pipeline { stage: Stage::Link, ota: OtaState::Idle },
                seq![
                    Command::Emit(StateEvent::MqttConnected(false)),
                    Command::CloseSession,
                    Command::CheckLink,
                ],
            ),
            (Stage::Session, Input::Broker(BrokerEvent::Received(message))) => {
                let (ota, commands) = spec_route(
                    self.ota,
                    spec_topic_view(message.topic),
                    message.payload@,
                    message.details,
                    message.status,
                );
                (Pipeline { stage: spec_stage_after(commands), ota }, commands)
            },
            (Stage::Session, Input::Broker(_)) => (self, seq![Command::NextEvent]),
            (Stage::Session, Input::SessionClosed) => (
                Pipeline { stage: Stage::Link, ota: OtaState::Idle },
                seq![Command::CloseSession, Command::CheckLink],
            ),
            _ => (self, Seq::empty()),
        }
    }

    /// Tells whether the state is one that the pipeline can be in.
    pub fn is_sound(self) -> (r: bool)
        ensures
            r == self.wf(),
    {
        let idle = match self.ota {
            OtaState::Idle => true,
            _ => false,
        };
        let in_session = match self.stage {
            Stage::Session => true,
            Stage::Halted => true,
            _ => false,
        };
        self.ota.is_sound() && (in_session || idle)
    }

    /// Starts the pipeline: the state to begin in and the first commands.
    pub fn start() -> (r: (Pipeline, Vec<Command>))
        ensures
            r.0 == Pipeline::spec_new(),
            r.0.wf(),
            r.1@ == seq![Command::CheckLink],
    {
        let mut out: Vec<Command> = Vec::new();
        out.push(Command::CheckLink);
        assert(out@ =~= seq![Command::CheckLink]);
        (Pipeline { stage: Stage::Link, ota: OtaState::Idle }, out)
    }

    /// Answers one input: the state after it and the commands to carry out.
    pub fn step(self, input: Input) -> (r: (Pipeline, Vec<Command>))
        ensures
            (r.0, r.1@) == self.spec_step(input),
            self.wf() ==> r.0.wf(),
    {
        let mut out: Vec<Command> = Vec::new();
        let idle = OtaState::Idle;
        let next = match self.stage {
            Stage::Link => match input {
                Input::LinkStatus(up) => {
                    if up {
                        out.push(Command::StartSync);
                        out.push(Command::PollSync);
                        Pipeline { stage: Stage::Syncing, ota: idle }
                    } else {
                        out.push(Command::Emit(StateEvent::WifiConnected(false)));
                        out.push(Command::Associate);
                        Pipeline { stage: Stage::Associating, ota: idle }
                    }
                },
                _ => self,
            },
            Stage::Associating => match input {
                Input::LinkUp => {
                    out.push(Command::Emit(StateEvent::WifiConnected(true)));
                    out.push(Command::StartSync);
                    out.push(Command::PollSync);
                    Pipeline { stage: Stage::Syncing, ota: idle }
                },
                Input::LinkFailed => {
                    out.push(Command::Halt(Fatal::AssociationFailed));
                    Pipeline { stage: Stage::Halted, ota: idle }
                },
                _ => self,
            },
            Stage::Syncing => match input {
                Input::SyncStatus(done) => {
                    if done {
                        out.push(Command::Emit(StateEvent::TimeSynced(true)));
                        out.push(Command::OpenSession);
                        out.push(Command::NextEvent);
                        Pipeline { stage: Stage::Session, ota: idle }
                    } else {
                        out.push(Command::Sleep(SYNC_POLL_SECONDS));
                        out.push(Command::PollSync);
                        self
                    }
                },
                _ => self,
            },
            Stage::Session => match input {
                Input::Broker(event) => match event {
                    BrokerEvent::Connected => {
                        out.push(Command::Subscribe(Topic::Tram));
                        out.push(Command::Subscribe(Topic::Metro));
                        out.push(Command::Subscribe(Topic::OtaData));
                        out.push(Command::Subscribe(Topic::OtaConfirm));
                        out.push(Command::Subscribe(Topic::OtaRollback));
                        out.push(Command::AnnounceReady);
                        out.push(Command::Emit(StateEvent::MqttConnected(true)));
                        out.push(Command::NextEvent);
                        self
                    },
                    BrokerEvent::Disconnected => {
                        out.push(Command::Emit(StateEvent::MqttConnected(false)));
                        out.push(Command::CloseSession);
                        out.push(Command::CheckLink);
                        Pipeline { stage: Stage::Link, ota: idle }
                    },
                    BrokerEvent::Received(message) => {
                        let (ota, commands) = route(self.ota, message);
                        let stage = if halts(&commands) {
                            Stage::Halted
                        } else {
                            Stage::Session
                        };
                        out = commands;
                        Pipeline { stage, ota }
                    },
                    _ => {
                        out.push(Command::NextEvent);
                        self
                    },
                },
                Input::SessionClosed => {
                    out.push(Command::CloseSession);
                    out.push(Command::CheckLink);
                    Pipeline { stage: Stage::Link, ota: idle }
                },
                _ => self,
            },
            Stage::Halted => self,
        };
        assert(out@ =~= self.spec_step(input).1);
        (next, out)
    }
}

/// The state after `inputs` have been answered in order, starting in `start`.
pub open spec fn spec_run(start: Pipeline, inputs: Seq<Input>) -> Pipeline
    decreases inputs.len(),
{
    if inputs.len() == 0 {
        start
    } else {
        spec_run(start, inputs.drop_last()).spec_step(inputs.last()).0
    }
}

/// All commands that answer `inputs`, in the order in which they are issued.
pub open spec fn spec_issued(start: Pipeline, inputs: Seq<Input>) -> Seq<Command>
    decreases inputs.len(),
{
    if inputs.len() == 0 {
        Seq::empty()
    } else {
        spec_issued(start, inputs.drop_last()) + spec_run(
            start,
            inputs.drop_last(),
        ).spec_step(inputs.last()).1
    }
}

/// The states of the link that `commands` report to the display, in order.
pub open spec fn spec_link_reports(commands: Seq<Command>) -> Seq<bool>
    decreases commands.len(),
{
    if commands.len() == 0 {
        Seq::empty()
    } else {
        match commands.last() {
            Command::Emit(StateEvent::WifiConnected(up)) => spec_link_reports(
                commands.drop_last(),
            ).push(up),
            _ => spec_link_reports(commands.drop_last()),
        }
    }
}

/// No two neighbours in `reports` are equal.
pub open spec fn spec_alternates(reports: Seq<bool>) -> bool {
    forall|i: int| 0 <= i < reports.len() - 1 ==> reports[i] != #[trigger] reports[i + 1]
}

spec fn spec_is_link_report(command: Command) -> bool {
    command matches Command::Emit(StateEvent::WifiConnected(_))
}

spec fn spec_link_invariant(state: Pipeline, reports: Seq<bool>) -> bool {
    &&& spec_alternates(reports)
    &&& reports.len() > 0 ==> !reports[0]
    &&& state.stage == Stage::Associating ==> reports.len() > 0 && !reports.last()
    &&& state.stage == Stage::Link || state.stage == Stage::Syncing || state.stage
        == Stage::Session ==> reports.len() == 0 || reports.last()
}

proof fn lemma_reports_concat(a: Seq<Command>, b: Seq<Command>)
    ensures
        spec_link_reports(a + b) == spec_link_reports(a) + spec_link_reports(b),
    decreases b.len(),
{
    if b.len() == 0 {
        assert(a + b =~= a);
        assert(spec_link_reports(a) + spec_link_reports(b) =~= spec_link_reports(a));
    } else {
        assert((a + b).drop_last() =~= a + b.drop_last());
        assert((a + b).last() == b.last());
        lemma_reports_concat(a, b.drop_last());
        match b.last() {
            Command::Emit(StateEvent::WifiConnected(up)) => {
                assert((spec_link_reports(a) + spec_link_reports(b.drop_last())).push(up)
                    =~= spec_link_reports(a) + spec_link_reports(b.drop_last()).push(up));
            },
            _ => {},
        }
    }
}

proof fn lemma_no_reports(commands: Seq<Command>)
    requires
        forall|i: int| 0 <= i < commands.len() ==> !spec_is_link_report(#[trigger] commands[i]),
    ensures
        spec_link_reports(commands) == Seq::<bool>::empty(),
    decreases commands.len(),
{
    if commands.len() > 0 {
        assert(!spec_is_link_report(commands[commands.len() - 1]));
        lemma_no_reports(commands.drop_last());
    }
}

proof fn lemma_one_report(commands: Seq<Command>, up: bool)
    requires
        commands.len() > 0,
        commands[0] == Command::Emit(StateEvent::WifiConnected(up)),
        forall|i: int| 1 <= i < commands.len() ==> !spec_is_link_report(#[trigger] commands[i]),
    ensures
        spec_link_reports(commands) == seq![up],
    decreases commands.len(),
{
    if commands.len() == 1 {
        assert(spec_link_reports(commands.drop_last()) == Seq::<bool>::empty());
        assert(Seq::<bool>::empty().push(up) =~= seq![up]);
    } else {
        assert(!spec_is_link_report(commands[commands.len() - 1]));
        lemma_one_report(commands.drop_last(), up);
    }
}

proof fn lemma_route_reports_nothing(state: Pipeline, message: Inbound)
    ensures
        ({
            let commands = spec_route(
                state.ota,
                spec_topic_view(message.topic),
                message.payload@,
                message.details,
                message.status,
            ).1;
            forall|i: int| 0 <= i < commands.len() ==> !spec_is_link_report(#[trigger] commands[i])
        }),
{
}

proof fn lemma_step_keeps_link_invariant(state: Pipeline, reports: Seq<bool>, input: Input)
    requires
        spec_link_invariant(state, reports),
    ensures
        spec_link_invariant(
            state.spec_step(input).0,
            reports + spec_link_reports(state.spec_step(input).1),
        ),
{
    let (next, commands) = state.spec_step(input);
    match (state.stage, input) {
        (Stage::Link, Input::LinkStatus(false)) => {
            lemma_one_report(commands, false);
            assert(reports + seq![false] =~= reports.push(false));
        },
        (Stage::Associating, Input::LinkUp) => {
            lemma_one_report(commands, true);
            assert(reports + seq![true] =~= reports.push(true));
        },
        (Stage::Session, Input::Broker(BrokerEvent::Received(message))) => {
            lemma_route_reports_nothing(state, message);
            lemma_no_reports(commands);
            assert(reports + Seq::<bool>::empty() =~= reports);
        },
        _ => {
            lemma_no_reports(commands);
            assert(reports + Seq::<bool>::empty() =~= reports);
        },
    }
}

proof fn lemma_run_keeps_link_invariant(inputs: Seq<Input>)
    ensures
        spec_link_invariant(
            spec_run(Pipeline::spec_new(), inputs),
            spec_link_reports(spec_issued(Pipeline::spec_new(), inputs)),
        ),
    decreases inputs.len(),
{
    let start = Pipeline::spec_new();
    if inputs.len() > 0 {
        let before = inputs.drop_last();
        lemma_run_keeps_link_invariant(before);
        lemma_step_keeps_link_invariant(
            spec_run(start, before),
            spec_link_reports(spec_issued(start, before)),
            inputs.last(),
        );
        lemma_reports_concat(
            spec_issued(start, before),
            spec_run(start, before).spec_step(inputs.last()).1,
        );
    }
}

/// Whatever the driver reports, the link is never announced twice in a row
/// in the same state: between two announcements that it is up lies one that
/// it is down, and the other way round. The first announcement, if there is
/// one, says that the link is down.
pub proof fn law_link_reports_alternate(inputs: Seq<Input>)
    ensures
        spec_alternates(spec_link_reports(spec_issued(Pipeline::spec_new(), inputs))),
        spec_link_reports(spec_issued(Pipeline::spec_new(), inputs)).len() > 0
            ==> !spec_link_reports(spec_issued(Pipeline::spec_new(), inputs))[0],
{
    lemma_run_keeps_link_invariant(inputs);
}

/// Every state that the pipeline reaches from its start is sound.
pub proof fn law_run_is_sound(inputs: Seq<Input>)
    ensures
        spec_run(Pipeline::spec_new(), inputs).wf(),
    decreases inputs.len(),
{
    if inputs.len() > 0 {
        law_run_is_sound(inputs.drop_last());
        let before = spec_run(Pipeline::spec_new(), inputs.drop_last());
        match (before.stage, inputs.last()) {
            (Stage::Session, Input::Broker(BrokerEvent::Received(message))) => {
                crate::ota::law_step_keeps_sound(
                    before.ota,
                    message.details,
                    message.payload@.len() as usize,
                );
            },
            _ => {},
        }
    }
}

/// How often `wanted` occurs among `commands`.
pub open spec fn spec_count(commands: Seq<Command>, wanted: Command) -> nat
    decreases commands.len(),
{
    if commands.len() == 0 {
        0
    } else if commands.last() == wanted {
        spec_count(commands.drop_last(), wanted) + 1
    } else {
        spec_count(commands.drop_last(), wanted)
    }
}

/// `inputs` are the messages of a session that carry `chunks`, one each, on
/// the firmware topic or on the unnamed topic.
pub open spec fn spec_delivers(inputs: Seq<Input>, chunks: Seq<Chunk>) -> bool {
    &&& inputs.len() == chunks.len()
    &&& forall|i: int|
        0 <= i < inputs.len() ==> (#[trigger] inputs[i] matches Input::Broker(
            BrokerEvent::Received(message),
        ) && spec_classify(spec_topic_view(message.topic)) == Route::OtaData && message.details
            == chunks[i].details && message.payload@.len() == chunks[i].len)
}

proof fn lemma_count_concat(a: Seq<Command>, b: Seq<Command>, wanted: Command)
    ensures
        spec_count(a + b, wanted) == spec_count(a, wanted) + spec_count(b, wanted),
    decreases b.len(),
{
    if b.len() == 0 {
        assert(a + b =~= a);
    } else {
        assert((a + b).drop_last() =~= a + b.drop_last());
        assert((a + b).last() == b.last());
        lemma_count_concat(a, b.drop_last(), wanted);
    }
}

proof fn lemma_count_none(commands: Seq<Command>, wanted: Command)
    requires
        forall|i: int| 0 <= i < commands.len() ==> #[trigger] commands[i] != wanted,
    ensures
        spec_count(commands, wanted) == 0,
    decreases commands.len(),
{
    if commands.len() > 0 {
        assert(commands[commands.len() - 1] != wanted);
        lemma_count_none(commands.drop_last(), wanted);
    }
}

proof fn lemma_count_one(commands: Seq<Command>, wanted: Command, k: int)
    requires
        0 <= k < commands.len(),
        commands[k] == wanted,
        forall|i: int| 0 <= i < commands.len() && i != k ==> #[trigger] commands[i] != wanted,
    ensures
        spec_count(commands, wanted) == 1,
    decreases commands.len(),
{
    let rest = commands.drop_last();
    if k == commands.len() - 1 {
        assert forall|i: int| 0 <= i < rest.len() implies #[trigger] rest[i] != wanted by {
            assert(rest[i] == commands[i]);
        }
        lemma_count_none(rest, wanted);
    } else {
        assert(commands[commands.len() - 1] != wanted);
        assert(rest[k] == commands[k]);
        assert forall|i: int| 0 <= i < rest.len() && i != k implies #[trigger] rest[i]
            != wanted by {
            assert(rest[i] == commands[i]);
        }
        lemma_count_one(rest, wanted, k);
    }
}

proof fn lemma_finalize_count_of_action(action: OtaAction)
    ensures
        spec_count(spec_ota_commands(action), Command::OtaFinalize) == if action.spec_finalizes() {
            1nat
        } else {
            0nat
        },
{
    let commands = spec_ota_commands(action);
    match action {
        OtaAction::WriteAndFinalize => {
            lemma_count_one(commands, Command::OtaFinalize, 1);
        },
        OtaAction::Finalize => {
            lemma_count_one(commands, Command::OtaFinalize, 0);
        },
        _ => {
            lemma_count_none(commands, Command::OtaFinalize);
        },
    }
}

proof fn lemma_delivery_prefix(
    start: Pipeline,
    inputs: Seq<Input>,
    chunks: Seq<Chunk>,
    total: usize,
    j: int,
)
    requires
        start == (Pipeline { stage: Stage::Session, ota: OtaState::Idle }),
        spec_delivers(inputs, chunks),
        spec_orderly(chunks, total),
        0 <= j < inputs.len(),
    ensures
        spec_run(start, inputs.take(j)) == (Pipeline {
            stage: Stage::Session,
            ota: crate::ota::spec_run(OtaState::Idle, chunks.take(j)),
        }),
        spec_count(spec_issued(start, inputs.take(j)), Command::OtaFinalize) == 0,
    decreases j,
{
    if j > 0 {
        lemma_delivery_prefix(start, inputs, chunks, total, j - 1);
        law_orderly_delivery_completes_once(chunks, total);
        assert(inputs.take(j).drop_last() =~= inputs.take(j - 1));
        assert(inputs.take(j).last() == inputs[j - 1]);
        assert(chunks.take(j).drop_last() =~= chunks.take(j - 1));
        assert(chunks.take(j).last() == chunks[j - 1]);
        let before = crate::ota::spec_run(OtaState::Idle, chunks.take(j - 1));
        let after = crate::ota::spec_run(OtaState::Idle, chunks.take(j));
        assert(after is InProgress);
        if j == 1 {
            assert(before == OtaState::Idle);
        } else {
            assert(before is InProgress);
        }
        let action = before.spec_on_chunk(chunks[j - 1].details, chunks[j - 1].len).1;
        assert(!action.spec_finalizes() && !(action is Abort));
        lemma_finalize_count_of_action(action);
        lemma_count_concat(
            spec_issued(start, inputs.take(j - 1)),
            spec_ota_commands(action),
            Command::OtaFinalize,
        );
    } else {
        assert(chunks.take(0).len() == 0);
    }
}

/// An orderly delivery of a firmware image in a session ends with exactly
/// one order to finalize and restart: the transfer is complete, the
/// pipeline has stopped, and among all the commands issued on the way the
/// order to finalize occurs once.
pub proof fn law_orderly_delivery_restarts_once(
    inputs: Seq<Input>,
    chunks: Seq<Chunk>,
    total: usize,
)
    requires
        spec_delivers(inputs, chunks),
        spec_orderly(chunks, total),
    ensures
        ({
            let start = Pipeline { stage: Stage::Session, ota: OtaState::Idle };
            &&& spec_run(start, inputs) == (Pipeline {
                stage: Stage::Halted,
                ota: OtaState::Complete,
            })
            &&& spec_count(spec_issued(start, inputs), Command::OtaFinalize) == 1
        }),
{
    let start = Pipeline { stage: Stage::Session, ota: OtaState::Idle };
    let n = inputs.len() as int;
    lemma_delivery_prefix(start, inputs, chunks, total, n - 1);
    law_orderly_delivery_completes_once(chunks, total);
    assert(inputs.drop_last() =~= inputs.take(n - 1));
    assert(chunks.drop_last() =~= chunks.take(n - 1));
    let before = crate::ota::spec_run(OtaState::Idle, chunks.take(n - 1));
    assert(before is InProgress);
    assert(inputs.last() == inputs[n - 1]);
    assert(chunks.last() == chunks[n - 1]);
    let action = before.spec_on_chunk(chunks[n - 1].details, chunks[n - 1].len).1;
    assert(action.spec_finalizes());
    lemma_finalize_count_of_action(action);
    crate::router::law_ota_commands_follow_action(action);
    lemma_count_concat(
        spec_issued(start, inputs.take(n - 1)),
        spec_ota_commands(action),
        Command::OtaFinalize,
    );
}

/// The clock is never reported as unset: whatever the driver reports, every
/// announcement about the clock says that it is set.
pub proof fn law_clock_is_never_reported_unset(inputs: Seq<Input>)
    ensures
        !spec_issued(Pipeline::spec_new(), inputs).contains(
            Command::Emit(StateEvent::TimeSynced(false)),
        ),
    decreases inputs.len(),
{
    let start = Pipeline::spec_new();
    let unset = Command::Emit(StateEvent::TimeSynced(false));
    if inputs.len() > 0 {
        law_clock_is_never_reported_unset(inputs.drop_last());
        let earlier = spec_issued(start, inputs.drop_last());
        let now = spec_run(start, inputs.drop_last()).spec_step(inputs.last()).1;
        assert forall|i: int| 0 <= i < now.len() implies now[i] != unset by {}
        assert forall|i: int| 0 <= i < (earlier + now).len() implies (earlier + now)[i]
            != unset by {
            if i < earlier.len() {
                assert(earlier.contains(earlier[i]));
            }
        }
    }
}

/// The marks that `commands` leave on the course of the epochs, in order:
/// `true` where the display is told that the clock is set, `false` where
/// the link is checked, which is where an epoch begins.
pub open spec fn spec_epoch_marks(commands: Seq<Command>) -> Seq<bool>
    decreases commands.len(),
{
    if commands.len() == 0 {
        Seq::empty()
    } else {
        match commands.last() {
            Command::Emit(StateEvent::TimeSynced(_)) => spec_epoch_marks(
                commands.drop_last(),
            ).push(true),
            Command::CheckLink => spec_epoch_marks(commands.drop_last()).push(false),
            _ => spec_epoch_marks(commands.drop_last()),
        }
    }
}

/// No two neighbours in `marks` are both `true`.
pub open spec fn spec_once_per_epoch(marks: Seq<bool>) -> bool {
    forall|i: int| 0 <= i < marks.len() - 1 ==> !(marks[i] && #[trigger] marks[i + 1])
}

spec fn spec_leaves_mark(command: Command) -> bool {
    command matches Command::Emit(StateEvent::TimeSynced(_)) || command == Command::CheckLink
}

spec fn spec_epoch_invariant(state: Pipeline, marks: Seq<bool>) -> bool {
    &&& spec_once_per_epoch(marks)
    &&& state.stage == Stage::Link || state.stage == Stage::Associating || state.stage
        == Stage::Syncing ==> marks.len() == 0 || !marks.last()
}

proof fn lemma_marks_concat(a: Seq<Command>, b: Seq<Command>)
    ensures
        spec_epoch_marks(a + b) == spec_epoch_marks(a) + spec_epoch_marks(b),
    decreases b.len(),
{
    if b.len() == 0 {
        assert(a + b =~= a);
        assert(spec_epoch_marks(a) + spec_epoch_marks(b) =~= spec_epoch_marks(a));
    } else {
        assert((a + b).drop_last() =~= a + b.drop_last());
        assert((a + b).last() == b.last());
        lemma_marks_concat(a, b.drop_last());
        let front = spec_epoch_marks(a);
        let back = spec_epoch_marks(b.drop_last());
        assert((front + back).push(true) =~= front + back.push(true));
        assert((front + back).push(false) =~= front + back.push(false));
    }
}

proof fn lemma_no_marks(commands: Seq<Command>)
    requires
        forall|i: int| 0 <= i < commands.len() ==> !spec_leaves_mark(#[trigger] commands[i]),
    ensures
        spec_epoch_marks(commands) == Seq::<bool>::empty(),
    decreases commands.len(),
{
    if commands.len() > 0 {
        assert(!spec_leaves_mark(commands[commands.len() - 1]));
        lemma_no_marks(commands.drop_last());
    }
}

proof fn lemma_one_mark(commands: Seq<Command>, k: int, mark: bool)
    requires
        0 <= k < commands.len(),
        spec_epoch_marks(seq![commands[k]]) == seq![mark],
        forall|i: int|
            0 <= i < commands.len() && i != k ==> !spec_leaves_mark(#[trigger] commands[i]),
    ensures
        spec_epoch_marks(commands) == seq![mark],
    decreases commands.len(),
{
    let rest = commands.drop_last();
    if k == commands.len() - 1 {
        assert forall|i: int| 0 <= i < rest.len() implies !spec_leaves_mark(
            #[trigger] rest[i],
        ) by {
            assert(rest[i] == commands[i]);
        }
        lemma_no_marks(rest);
        let single = seq![commands[k]];
        assert(single.last() == commands.last());
        assert(single.drop_last() =~= Seq::<Command>::empty());
        assert(spec_epoch_marks(single.drop_last()) == Seq::<bool>::empty());
    } else {
        assert(!spec_leaves_mark(commands[commands.len() - 1]));
        assert(rest[k] == commands[k]);
        assert forall|i: int| 0 <= i < rest.len() && i != k implies !spec_leaves_mark(
            #[trigger] rest[i],
        ) by {
            assert(rest[i] == commands[i]);
        }
        lemma_one_mark(rest, k, mark);
    }
}

proof fn lemma_single_mark(command: Command)
    ensures
        command matches Command::Emit(StateEvent::TimeSynced(_)) ==> spec_epoch_marks(
            seq![command],
        ) == seq![true],
        command == Command::CheckLink ==> spec_epoch_marks(seq![command]) == seq![false],
{
    let single = seq![command];
    assert(single.last() == command);
    assert(single.drop_last() =~= Seq::<Command>::empty());
    assert(spec_epoch_marks(single.drop_last()) == Seq::<bool>::empty());
    assert(Seq::<bool>::empty().push(true) =~= seq![true]);
    assert(Seq::<bool>::empty().push(false) =~= seq![false]);
}

proof fn lemma_route_leaves_no_mark(state: Pipeline, message: Inbound)
    ensures
        ({
            let commands = spec_route(
                state.ota,
                spec_topic_view(message.topic),
                message.payload@,
                message.details,
                message.status,
            ).1;
            forall|i: int| 0 <= i < commands.len() ==> !spec_leaves_mark(#[trigger] commands[i])
        }),
{
}

proof fn lemma_step_keeps_epoch_invariant(state: Pipeline, marks: Seq<bool>, input: Input)
    requires
        spec_epoch_invariant(state, marks),
    ensures
        spec_epoch_invariant(
            state.spec_step(input).0,
            marks + spec_epoch_marks(state.spec_step(input).1),
        ),
{
    let (next, commands) = state.spec_step(input);
    match (state.stage, input) {
        (Stage::Syncing, Input::SyncStatus(true)) => {
            lemma_single_mark(commands[0]);
            lemma_one_mark(commands, 0, true);
            assert(marks + seq![true] =~= marks.push(true));
        },
        (Stage::Session, Input::Broker(BrokerEvent::Disconnected)) => {
            lemma_single_mark(commands[2]);
            lemma_one_mark(commands, 2, false);
            assert(marks + seq![false] =~= marks.push(false));
        },
        (Stage::Session, Input::SessionClosed) => {
            lemma_single_mark(commands[1]);
            lemma_one_mark(commands, 1, false);
            assert(marks + seq![false] =~= marks.push(false));
        },
        (Stage::Session, Input::Broker(BrokerEvent::Received(message))) => {
            lemma_route_leaves_no_mark(state, message);
            lemma_no_marks(commands);
            assert(marks + Seq::<bool>::empty() =~= marks);
        },
        _ => {
            lemma_no_marks(commands);
            assert(marks + Seq::<bool>::empty() =~= marks);
        },
    }
}

proof fn lemma_run_keeps_epoch_invariant(inputs: Seq<Input>)
    ensures
        spec_epoch_invariant(
            spec_run(Pipeline::spec_new(), inputs),
            spec_epoch_marks(spec_issued(Pipeline::spec_new(), inputs)),
        ),
    decreases inputs.len(),
{
    let start = Pipeline::spec_new();
    if inputs.len() > 0 {
        let before = inputs.drop_last();
        lemma_run_keeps_epoch_invariant(before);
        lemma_step_keeps_epoch_invariant(
            spec_run(start, before),
            spec_epoch_marks(spec_issued(start, before)),
            inputs.last(),
        );
        lemma_marks_concat(
            spec_issued(start, before),
            spec_run(start, before).spec_step(inputs.last()).1,
        );
    }
}

/// The display is told at most once in an epoch that the clock is set:
/// whatever the driver reports, between two such announcements the pipeline
/// has gone back to checking the link.
pub proof fn law_clock_is_announced_once_per_epoch(inputs: Seq<Input>)
    ensures
        spec_once_per_epoch(spec_epoch_marks(spec_issued(Pipeline::spec_new(), inputs))),
{
    lemma_run_keeps_epoch_invariant(inputs);
}

/// A pipeline that has stopped stays stopped: whatever the driver reports
/// afterwards, the state does not change and no command is issued.
pub proof fn law_halted_is_terminal(state: Pipeline, inputs: Seq<Input>)
    requires
        state.stage == Stage::Halted,
    ensures
        spec_run(state, inputs) == state,
        spec_issued(state, inputs) == Seq::<Command>::empty(),
    decreases inputs.len(),
{
    if inputs.len() > 0 {
        law_halted_is_terminal(state, inputs.drop_last());
        assert(Seq::<Command>::empty() + Seq::<Command>::empty() =~= Seq::<Command>::empty());
    }
}

/// A chunk that the transfer machine refuses stops the pipeline at once:
/// the only command is the halt that names the violation, so nothing is
/// written and nothing is finalized, and the transfer is aborted.
pub proof fn law_refused_chunk_halts(state: Pipeline, message: Inbound)
    requires
        state.stage == Stage::Session,
        spec_classify(spec_topic_view(message.topic)) == Route::OtaData,
        state.ota.spec_on_chunk(message.details, message.payload@.len() as usize).1 is Abort,
    ensures
        ({
            let (next, commands) = state.spec_step(
                Input::Broker(BrokerEvent::Received(message)),
            );
            let refusal = state.ota.spec_on_chunk(
                message.details,
                message.payload@.len() as usize,
            ).1;
            &&& next == (Pipeline { stage: Stage::Halted, ota: OtaState::Aborted })
            &&& refusal matches OtaAction::Abort(violation) && commands
                == seq![Command::Halt(Fatal::Protocol(violation))]
        }),
{
    let commands = state.spec_step(Input::Broker(BrokerEvent::Received(message))).1;
    assert(commands.last() == commands[commands.len() - 1]);
}

} // verus!
