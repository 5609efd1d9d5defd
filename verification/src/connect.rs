//! The connectivity coordinator.
//!
//! Bringing the network up is a fixed sequence: join the wireless network,
//! trying again for as long as it takes; wait until the stack has an address
//! configuration; wait until the link is up; wait until the stack is ready and
//! learn the assigned address; publish that address. The coordinator decides
//! each next step from the answer to the last one. Talking to the radio and to
//! the stack, and sleeping between polls, is left to the caller.

use vstd::prelude::*;
use crate::address::{address_text, format_address, lemma_address_text_fits, AssignedAddress};
use crate::bounded::fits;
use crate::status::{StatusChannel, StatusView};

verus! {

/// Pause between two checks for an address configuration, in milliseconds.
pub const CONFIG_POLL_MS: u64 = 100;

/// Pause between two checks for the link, in milliseconds.
pub const LINK_POLL_MS: u64 = 500;

/// How far the bring-up has come.
#[derive(Clone, Copy, Debug, PartialEq, Eq, Structural)]
pub enum CoordinatorState {
    /// Nothing has been started.
    Disconnected,
    /// A join attempt is under way.
    Joining,
    /// Joined; the stack has no address configuration yet.
    WaitingForConfig,
    /// Configured; waiting for the link, then for the stack as a whole.
    WaitingForLink,
    /// The address is known and has been handed on for publication.
    Ready,
}

/// The network to join and the passphrase for it.
#[derive(Clone, Copy, Debug, PartialEq, Eq)]
pub struct Credentials<'a> {
    pub network: &'a str,
    pub passphrase: &'a str,
}

/// What the radio and the network stack answered.
#[derive(Clone, Copy, Debug, PartialEq, Eq)]
pub enum NetEvent {
    /// The task has started.
    Start,
    /// The join attempt succeeded.
    JoinSucceeded,
    /// The join attempt failed with this status code.
    JoinFailed { status: u32 },
    /// Whether the stack has an address configuration.
    ConfigChecked { up: bool },
    /// Whether the link is up.
    LinkChecked { up: bool },
    /// The stack is ready, and this is the address it was assigned.
    StackReady { address: AssignedAddress },
}

/// What the caller is to do next.
#[derive(Clone, Copy, Debug, PartialEq, Eq)]
pub enum NetAction<'a> {
    /// Attempt to join with `credentials`, at once. After a failed attempt,
    /// `failed_with` is its status code, to be logged.
    Join { credentials: Credentials<'a>, failed_with: Option<u32> },
    /// Sleep for `delay_ms` milliseconds, then report whether the stack has an
    /// address configuration.
    CheckConfig { delay_ms: u64 },
    /// Sleep for `delay_ms` milliseconds, then report whether the link is up.
    CheckLink { delay_ms: u64 },
    /// Wait until the stack is ready and report the assigned address.
    AwaitStack,
    /// Publish this address on the status channel.
    Publish { address: AssignedAddress },
    /// The bring-up is complete: there is nothing further to do.
    Idle,
    /// The event answers no question the coordinator has asked: carry on with
    /// the action given before.
    Ignored,
}

/// What can be observed of a coordinator.
pub struct CoordinatorModel<'a> {
    /// The credentials supplied at startup, used for every join attempt.
    pub credentials: Credentials<'a>,
    pub state: CoordinatorState,
    /// In `WaitingForLink`: whether the link has been seen up, so that only
    /// the stack is still awaited.
    pub link_up: bool,
}

impl<'a> CoordinatorModel<'a> {
    /// The coordinator before the task starts, holding the credentials.
    pub open spec fn start(credentials: Credentials<'a>) -> CoordinatorModel<'a> {
        CoordinatorModel { credentials, state: CoordinatorState::Disconnected, link_up: false }
    }
}

/// The transition on one event: the state that follows, and the action asked
/// of the caller.
pub open spec fn next<'a>(before: CoordinatorModel<'a>, event: NetEvent) -> (
    CoordinatorModel<'a>,
    NetAction<'a>,
) {
    match (before.state, event) {
        (CoordinatorState::Disconnected, NetEvent::Start) => (
            CoordinatorModel { credentials: before.credentials, state: CoordinatorState::Joining, link_up: false },
            NetAction::Join { credentials: before.credentials, failed_with: None },
        ),
        (CoordinatorState::Joining, NetEvent::JoinFailed { status }) => (
            before,
            NetAction::Join { credentials: before.credentials, failed_with: Some(status) },
        ),
        (CoordinatorState::Joining, NetEvent::JoinSucceeded) => (
            CoordinatorModel { credentials: before.credentials, state: CoordinatorState::WaitingForConfig, link_up: false },
            NetAction::CheckConfig { delay_ms: 0 },
        ),
        (CoordinatorState::WaitingForConfig, NetEvent::ConfigChecked { up }) => if up {
            (
                CoordinatorModel { credentials: before.credentials, state: CoordinatorState::WaitingForLink, link_up: false },
                NetAction::CheckLink { delay_ms: 0 },
            )
        } else {
            (before, NetAction::CheckConfig { delay_ms: CONFIG_POLL_MS })
        },
        (CoordinatorState::WaitingForLink, NetEvent::LinkChecked { up }) => if before.link_up {
            (before, NetAction::Ignored)
        } else if up {
            (
                CoordinatorModel { credentials: before.credentials, state: CoordinatorState::WaitingForLink, link_up: true },
                NetAction::AwaitStack,
            )
        } else {
            (before, NetAction::CheckLink { delay_ms: LINK_POLL_MS })
        },
        (CoordinatorState::WaitingForLink, NetEvent::StackReady { address }) => if before.link_up {
            (
                CoordinatorModel { credentials: before.credentials, state: CoordinatorState::Ready, link_up: true },
                NetAction::Publish { address },
            )
        } else {
            (before, NetAction::Ignored)
        },
        (CoordinatorState::Ready, _) => (before, NetAction::Idle),
        _ => (before, NetAction::Ignored),
    }
}

/// Drives the bring-up of the network, one answer at a time.
pub struct Coordinator<'a> {
    credentials: Credentials<'a>,
    state: CoordinatorState,
    link_up: bool,
}

impl<'a> View for Coordinator<'a> {
    type V = CoordinatorModel<'a>;

    closed spec fn view(&self) -> CoordinatorModel<'a> {
        CoordinatorModel { credentials: self.credentials, state: self.state, link_up: self.link_up }
    }
}

impl<'a> Coordinator<'a> {
    /// A coordinator that has not started, with the credentials it is to
    /// join with.
    pub fn new(credentials: Credentials<'a>) -> (coordinator: Self)
        ensures
            coordinator@ == CoordinatorModel::start(credentials),
    {
        Coordinator { credentials, state: CoordinatorState::Disconnected, link_up: false }
    }

    /// The credentials every join attempt is made with.
    pub fn credentials(&self) -> (credentials: Credentials<'a>)
        ensures
            credentials == self@.credentials,
    {
        self.credentials
    }

    /// How far the bring-up has come.
    pub fn state(&self) -> (state: CoordinatorState)
        ensures
            state == self@.state,
    {
        self.state
    }

    /// Whether the bring-up is complete.
    pub fn is_ready(&self) -> (ready: bool)
        ensures
            ready == (self@.state == CoordinatorState::Ready),
    {
        match self.state {
            CoordinatorState::Ready => true,
            _ => false,
        }
    }

    /// Takes the answer to the last action and decides the next one.
    pub fn step(&mut self, event: NetEvent) -> (action: NetAction<'a>)
        ensures
            (final(self)@, action) == next(old(self)@, event),
    {
        match (self.state, event) {
            (CoordinatorState::Disconnected, NetEvent::Start) => {
                self.state = CoordinatorState::Joining;
                self.link_up = false;
                NetAction::Join { credentials: self.credentials, failed_with: None }
            },
            (CoordinatorState::Joining, NetEvent::JoinFailed { status }) => NetAction::Join {
                credentials: self.credentials,
                failed_with: Some(status),
            },
            (CoordinatorState::Joining, NetEvent::JoinSucceeded) => {
                self.state = CoordinatorState::WaitingForConfig;
                self.link_up = false;
                NetAction::CheckConfig { delay_ms: 0 }
            },
            (CoordinatorState::WaitingForConfig, NetEvent::ConfigChecked { up }) => {
                if up {
                    self.state = CoordinatorState::WaitingForLink;
                    self.link_up = false;
                    NetAction::CheckLink { delay_ms: 0 }
                } else {
                    NetAction::CheckConfig { delay_ms: CONFIG_POLL_MS }
                }
            },
            (CoordinatorState::WaitingForLink, NetEvent::LinkChecked { up }) => {
                if self.link_up {
                    NetAction::Ignored
                } else if up {
                    self.link_up = true;
                    NetAction::AwaitStack
                } else {
                    NetAction::CheckLink { delay_ms: LINK_POLL_MS }
                }
            },
            (CoordinatorState::WaitingForLink, NetEvent::StackReady { address }) => {
                if self.link_up {
                    self.state = CoordinatorState::Ready;
                    NetAction::Publish { address }
                } else {
                    NetAction::Ignored
                }
            },
            (CoordinatorState::Ready, _) => NetAction::Idle,
            _ => NetAction::Ignored,
        }
    }
}

/// Publishes the text of `address` on the status channel. The text of an
/// address always fits, so the publication is never refused.
pub fn publish_address(channel: &mut StatusChannel, address: &AssignedAddress)
    ensures
        final(channel)@ == (StatusView { dirty: true, text: address_text(*address) }),
        fits(address_text(*address)),
        address_text(*address).len() > 0,
{
    proof {
        lemma_address_text_fits(*address);
    }
    let text = format_address(address);
    let stored = channel.publish(text.as_str());
    assert(stored is Ok);
}

/// Where a coordinator ends up after a sequence of events, and the actions it
/// asked for on the way, in order.
pub open spec fn run<'a>(before: CoordinatorModel<'a>, events: Seq<NetEvent>) -> (
    CoordinatorModel<'a>,
    Seq<NetAction<'a>>,
)
    decreases events.len(),
{
    if events.len() == 0 {
        (before, Seq::<NetAction<'_>>::empty())
    } else {
        let (mid, action) = next(before, events.first());
        let (after, actions) = run(mid, events.drop_first());
        (after, seq![action] + actions)
    }
}

/// How many join attempts a sequence of actions asks for.
pub open spec fn join_attempts(actions: Seq<NetAction>) -> nat
    decreases actions.len(),
{
    if actions.len() == 0 {
        0
    } else if actions.first() is Join {
        1 + join_attempts(actions.drop_first())
    } else {
        join_attempts(actions.drop_first())
    }
}

/// How many publications a sequence of actions asks for.
pub open spec fn publications(actions: Seq<NetAction>) -> nat
    decreases actions.len(),
{
    if actions.len() == 0 {
        0
    } else if actions.first() is Publish {
        1 + publications(actions.drop_first())
    } else {
        publications(actions.drop_first())
    }
}

/// Whether every join attempt among `actions` is made with `credentials`.
pub open spec fn attempts_use(actions: Seq<NetAction>, credentials: Credentials) -> bool {
    forall|i: int|
        0 <= i < actions.len() ==> (#[trigger] actions[i] matches NetAction::Join {
            credentials: used,
            failed_with,
        } ==> used == credentials)
}

/// The answers of a radio whose join attempts fail with the given status
/// codes, one after the other.
pub open spec fn failed_joins(statuses: Seq<u32>) -> Seq<NetEvent> {
    Seq::new(statuses.len(), |i: int| NetEvent::JoinFailed { status: statuses[i] })
}

/// The same answer, `count` times over.
pub open spec fn repeated(event: NetEvent, count: nat) -> Seq<NetEvent> {
    Seq::new(count, |i: int| event)
}

/// A complete bring-up: the join fails once for each status code and then
/// succeeds; the address configuration is found missing `config_waits` times
/// and then present; the link is found down `link_waits` times and then up;
/// the stack becomes ready with `address`.
pub open spec fn bring_up(
    statuses: Seq<u32>,
    config_waits: nat,
    link_waits: nat,
    address: AssignedAddress,
) -> Seq<NetEvent> {
    seq![NetEvent::Start] + failed_joins(statuses) + seq![NetEvent::JoinSucceeded] + repeated(
        NetEvent::ConfigChecked { up: false },
        config_waits,
    ) + seq![NetEvent::ConfigChecked { up: true }] + repeated(
        NetEvent::LinkChecked { up: false },
        link_waits,
    ) + seq![NetEvent::LinkChecked { up: true }, NetEvent::StackReady { address }]
}

/// Running two sequences of events one after the other is running their
/// concatenation.
pub proof fn lemma_run_concat(before: CoordinatorModel, head: Seq<NetEvent>, tail: Seq<NetEvent>)
    ensures
        run(before, head + tail).0 == run(run(before, head).0, tail).0,
        run(before, head + tail).1 == run(before, head).1 + run(run(before, head).0, tail).1,
    decreases head.len(),
{
    if head.len() == 0 {
        assert(head + tail =~= tail);
        assert(run(before, head).1 + run(before, tail).1 =~= run(before, tail).1);
    } else {
        let (mid, action) = next(before, head.first());
        assert((head + tail).first() == head.first());
        assert((head + tail).drop_first() =~= head.drop_first() + tail);
        lemma_run_concat(mid, head.drop_first(), tail);
        assert(seq![action] + (run(mid, head.drop_first()).1 + run(
            run(mid, head.drop_first()).0,
            tail,
        ).1) =~= (seq![action] + run(mid, head.drop_first()).1) + run(
            run(mid, head.drop_first()).0,
            tail,
        ).1);
    }
}

/// The attempts and publications in two sequences of actions add up.
pub proof fn lemma_counts_concat(head: Seq<NetAction>, tail: Seq<NetAction>)
    ensures
        join_attempts(head + tail) == join_attempts(head) + join_attempts(tail),
        publications(head + tail) == publications(head) + publications(tail),
    decreases head.len(),
{
    if head.len() == 0 {
        assert(head + tail =~= tail);
    } else {
        assert((head + tail).first() == head.first());
        assert((head + tail).drop_first() =~= head.drop_first() + tail);
        lemma_counts_concat(head.drop_first(), tail);
    }
}

/// The credentials supplied at startup stay as they are, and every join
/// attempt, the first and each retry, is made with them.
pub proof fn lemma_attempts_use_the_credentials(before: CoordinatorModel, events: Seq<NetEvent>)
    ensures
        run(before, events).0.credentials == before.credentials,
        attempts_use(run(before, events).1, before.credentials),
    decreases events.len(),
{
    if events.len() > 0 {
        let (mid, action) = next(before, events.first());
        let rest = run(mid, events.drop_first()).1;
        lemma_attempts_use_the_credentials(mid, events.drop_first());
        let actions = seq![action] + rest;
        assert forall|i: int| 0 <= i < actions.len() implies (#[trigger] actions[i]
            matches NetAction::Join { credentials: used, failed_with } ==> used
            == before.credentials) by {
            if i > 0 {
                assert(actions[i] == rest[i - 1]);
            }
        }
    }
}

/// One event gives one action.
proof fn lemma_run_one(before: CoordinatorModel, event: NetEvent)
    ensures
        run(before, seq![event]).0 == next(before, event).0,
        run(before, seq![event]).1 == seq![next(before, event).1],
        join_attempts(seq![next(before, event).1]) == if next(before, event).1 is Join {
            1nat
        } else {
            0nat
        },
        publications(seq![next(before, event).1]) == if next(before, event).1 is Publish {
            1nat
        } else {
            0nat
        },
{
    let events = seq![event];
    let action = next(before, event).1;
    assert(events.drop_first() =~= Seq::<NetEvent>::empty());
    assert(run(next(before, event).0, events.drop_first()).1 =~= Seq::<NetAction<'_>>::empty());
    assert(seq![action] + Seq::<NetAction<'_>>::empty() =~= seq![action]);
    assert(seq![action].first() == action);
    assert(seq![action].drop_first() =~= Seq::<NetAction<'_>>::empty());
    assert(join_attempts(seq![action].drop_first()) == 0);
    assert(publications(seq![action].drop_first()) == 0);
}

/// While joining, every failure is answered by one more attempt.
proof fn lemma_failed_joins(credentials: Credentials, statuses: Seq<u32>)
    ensures
        run(
            CoordinatorModel { credentials, state: CoordinatorState::Joining, link_up: false },
            failed_joins(statuses),
        ).0 == (CoordinatorModel { credentials, state: CoordinatorState::Joining, link_up: false }),
        join_attempts(
            run(
                CoordinatorModel { credentials, state: CoordinatorState::Joining, link_up: false },
                failed_joins(statuses),
            ).1,
        ) == statuses.len(),
        publications(
            run(
                CoordinatorModel { credentials, state: CoordinatorState::Joining, link_up: false },
                failed_joins(statuses),
            ).1,
        ) == 0,
    decreases statuses.len(),
{
    let joining = CoordinatorModel { credentials, state: CoordinatorState::Joining, link_up: false };
    let events = failed_joins(statuses);
    if statuses.len() > 0 {
        assert(events.drop_first() =~= failed_joins(statuses.drop_first()));
        lemma_failed_joins(credentials, statuses.drop_first());
        let action = next(joining, events.first()).1;
        let rest = run(joining, events.drop_first()).1;
        assert((seq![action] + rest).drop_first() =~= rest);
    }
}

/// A wait that is answered "not yet" `count` times asks again each time and
/// changes nothing.
proof fn lemma_waiting(before: CoordinatorModel, event: NetEvent, count: nat)
    requires
        next(before, event).0 == before,
        !(next(before, event).1 is Join),
        !(next(before, event).1 is Publish),
    ensures
        run(before, repeated(event, count)).0 == before,
        join_attempts(run(before, repeated(event, count)).1) == 0,
        publications(run(before, repeated(event, count)).1) == 0,
    decreases count,
{
    let events = repeated(event, count);
    if count > 0 {
        assert(events.drop_first() =~= repeated(event, (count - 1) as nat));
        lemma_waiting(before, event, (count - 1) as nat);
        let action = next(before, event).1;
        let rest = run(before, events.drop_first()).1;
        assert((seq![action] + rest).drop_first() =~= rest);
    }
}

/// Retry convergence: when the join fails some number of times and then
/// succeeds, and the stack comes up, the coordinator ends in `Ready`, has made
/// exactly one attempt more than there were failures, each with the
/// credentials supplied at startup, and has asked for exactly one
/// publication: that of the assigned address, whose text is not empty and
/// fits the status channel.
pub proof fn lemma_retry_convergence(
    credentials: Credentials,
    statuses: Seq<u32>,
    config_waits: nat,
    link_waits: nat,
    address: AssignedAddress,
)
    ensures
        run(
            CoordinatorModel::start(credentials),
            bring_up(statuses, config_waits, link_waits, address),
        ).0.state == CoordinatorState::Ready,
        join_attempts(
            run(
                CoordinatorModel::start(credentials),
                bring_up(statuses, config_waits, link_waits, address),
            ).1,
        ) == statuses.len() + 1,
        publications(
            run(
                CoordinatorModel::start(credentials),
                bring_up(statuses, config_waits, link_waits, address),
            ).1,
        ) == 1,
        run(
            CoordinatorModel::start(credentials),
            bring_up(statuses, config_waits, link_waits, address),
        ).1.last() == (NetAction::Publish { address }),
        attempts_use(
            run(
                CoordinatorModel::start(credentials),
                bring_up(statuses, config_waits, link_waits, address),
            ).1,
            credentials,
        ),
        address_text(address).len() > 0,
        fits(address_text(address)),
{
    lemma_attempts_use_the_credentials(
        CoordinatorModel::start(credentials),
        bring_up(statuses, config_waits, link_waits, address),
    );
    let start = CoordinatorModel::start(credentials);
    let joining = CoordinatorModel { credentials, state: CoordinatorState::Joining, link_up: false };
    let configuring = CoordinatorModel { credentials, state: CoordinatorState::WaitingForConfig, link_up: false };
    let linking = CoordinatorModel { credentials, state: CoordinatorState::WaitingForLink, link_up: false };
    let linked = CoordinatorModel { credentials, state: CoordinatorState::WaitingForLink, link_up: true };
    let ready = CoordinatorModel { credentials, state: CoordinatorState::Ready, link_up: true };

    let begin = seq![NetEvent::Start];
    let failures = failed_joins(statuses);
    let joined = seq![NetEvent::JoinSucceeded];
    let config_misses = repeated(NetEvent::ConfigChecked { up: false }, config_waits);
    let config_found = seq![NetEvent::ConfigChecked { up: true }];
    let link_misses = repeated(NetEvent::LinkChecked { up: false }, link_waits);
    let link_found = seq![NetEvent::LinkChecked { up: true }];
    let stack_ready = seq![NetEvent::StackReady { address }];
    assert(seq![NetEvent::LinkChecked { up: true }, NetEvent::StackReady { address }] =~= link_found + stack_ready);
    let until_failures = begin + failures;
    let until_joined = until_failures + joined;
    let until_config_misses = until_joined + config_misses;
    let until_config = until_config_misses + config_found;
    let until_link_misses = until_config + link_misses;
    let until_link = until_link_misses + link_found;
    let whole = until_link + stack_ready;
    assert(bring_up(statuses, config_waits, link_waits, address) =~= whole);

    lemma_run_one(start, NetEvent::Start);
    assert(run(start, begin).0 == joining);

    lemma_failed_joins(credentials, statuses);
    lemma_run_concat(start, begin, failures);
    lemma_counts_concat(run(start, begin).1, run(joining, failures).1);
    assert(run(start, until_failures).0 == joining);
    assert(join_attempts(run(start, until_failures).1) == statuses.len() + 1);
    assert(publications(run(start, until_failures).1) == 0);

    lemma_run_one(joining, NetEvent::JoinSucceeded);
    lemma_run_concat(start, until_failures, joined);
    lemma_counts_concat(run(start, until_failures).1, run(joining, joined).1);
    assert(run(start, until_joined).0 == configuring);

    lemma_waiting(configuring, NetEvent::ConfigChecked { up: false }, config_waits);
    lemma_run_concat(start, until_joined, config_misses);
    lemma_counts_concat(run(start, until_joined).1, run(configuring, config_misses).1);
    assert(run(start, until_config_misses).0 == configuring);

    lemma_run_one(configuring, NetEvent::ConfigChecked { up: true });
    lemma_run_concat(start, until_config_misses, config_found);
    lemma_counts_concat(run(start, until_config_misses).1, run(configuring, config_found).1);
    assert(run(start, until_config).0 == linking);

    lemma_waiting(linking, NetEvent::LinkChecked { up: false }, link_waits);
    lemma_run_concat(start, until_config, link_misses);
    lemma_counts_concat(run(start, until_config).1, run(linking, link_misses).1);
    assert(run(start, until_link_misses).0 == linking);

    lemma_run_one(linking, NetEvent::LinkChecked { up: true });
    lemma_run_concat(start, until_link_misses, link_found);
    lemma_counts_concat(run(start, until_link_misses).1, run(linking, link_found).1);
    assert(run(start, until_link).0 == linked);
    assert(join_attempts(run(start, until_link).1) == statuses.len() + 1);
    assert(publications(run(start, until_link).1) == 0);

    lemma_run_one(linked, NetEvent::StackReady { address });
    lemma_run_concat(start, until_link, stack_ready);
    lemma_counts_concat(run(start, until_link).1, run(linked, stack_ready).1);
    assert(run(start, whole).0 == ready);
    assert(run(start, whole).1 == run(start, until_link).1 + seq![NetAction::Publish { address }]);

    lemma_address_text_fits(address);
}

/// `Ready` is final: whatever is reported afterwards, the coordinator stays
/// ready and asks for no further join attempt and no further publication.
pub proof fn lemma_ready_is_final(before: CoordinatorModel, events: Seq<NetEvent>)
    requires
        before.state == CoordinatorState::Ready,
    ensures
        run(before, events).0 == before,
        join_attempts(run(before, events).1) == 0,
        publications(run(before, events).1) == 0,
    decreases events.len(),
{
    if events.len() > 0 {
        lemma_ready_is_final(before, events.drop_first());
        let rest = run(before, events.drop_first()).1;
        assert((seq![NetAction::Idle] + rest).drop_first() =~= rest);
    }
}

} // verus!
