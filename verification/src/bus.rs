//! The shared bus arbiter.
//!
//! Several peripheral drivers share one physical bus, each with a chip-select
//! line of its own. The arbiter decides who may use the bus: it grants access
//! to one line at a time and orders every frame that goes out. Performing the
//! frames (driving the pin, clocking the byte) is left to the caller, who also
//! waits and tries again when access is not granted.

use vstd::prelude::*;

verus! {

/// A frame on the bus, in the order the arbiter allowed it.
#[derive(Clone, Copy, Debug, PartialEq, Eq, Structural)]
pub enum BusEvent {
    /// The chip-select line is asserted: a transaction begins.
    Select { line: u8 },
    /// One byte is clocked out while the line is asserted.
    Transfer { line: u8, byte: u8 },
    /// The chip-select line is de-asserted: the transaction is over.
    Deselect { line: u8 },
}

/// The chip-select line a frame belongs to.
pub open spec fn line_of(event: BusEvent) -> u8 {
    match event {
        BusEvent::Select { line } => line,
        BusEvent::Transfer { line, byte } => line,
        BusEvent::Deselect { line } => line,
    }
}

/// The line that holds the bus after `log`, if any. The outer `None` marks a
/// log that no arbiter can have produced: a frame outside a transaction, a
/// frame of a line that does not hold the bus, or a transaction begun while
/// another was open.
pub open spec fn holder_after(log: Seq<BusEvent>) -> Option<Option<u8>>
    decreases log.len(),
{
    if log.len() == 0 {
        Some(None)
    } else {
        match (holder_after(log.drop_last()), log.last()) {
            (Some(None), BusEvent::Select { line }) => Some(Some(line)),
            (Some(Some(holder)), BusEvent::Transfer { line, byte }) => if line == holder {
                Some(Some(holder))
            } else {
                None
            },
            (Some(Some(holder)), BusEvent::Deselect { line }) => if line == holder {
                Some(None)
            } else {
                None
            },
            _ => None,
        }
    }
}

/// A log in which transactions follow one another and never overlap.
pub open spec fn serialized(log: Seq<BusEvent>) -> bool {
    holder_after(log) is Some
}

/// No transaction ends strictly between the positions `from` and `to`.
pub open spec fn no_release_between(log: Seq<BusEvent>, from: int, to: int) -> bool {
    forall|m: int| from < m < to ==> !(#[trigger] log[m] is Deselect)
}

/// From the frame that begins a transaction up to the frame that ends it,
/// every frame belongs to the same line, and no other transaction begins.
pub open spec fn contiguous(log: Seq<BusEvent>) -> bool {
    forall|start: int, at: int|
        0 <= start < at < log.len() && log[start] is Select && #[trigger] no_release_between(
            log,
            start,
            at,
        ) ==> !(log[at] is Select) && line_of(log[at]) == line_of(log[start])
}

/// Every byte and every release lies inside a transaction: some earlier frame
/// began it, and it has not ended since.
pub open spec fn enclosed(log: Seq<BusEvent>) -> bool {
    forall|at: int|
        0 <= at < log.len() && !(#[trigger] log[at] is Select) ==> exists|start: int|
            0 <= start < at && log[start] is Select && #[trigger] no_release_between(
                log,
                start,
                at,
            )
}

/// What can be observed of an arbiter: who holds the bus, and every frame it
/// has allowed so far.
pub struct BusModel {
    pub holder: Option<u8>,
    pub log: Seq<BusEvent>,
}

impl BusModel {
    /// The arbiter at rest: nobody holds the bus, nothing was sent.
    pub open spec fn idle() -> BusModel {
        BusModel { holder: None, log: Seq::<BusEvent>::empty() }
    }

    /// The recorded holder is the one the log leads to.
    pub open spec fn wf(self) -> bool {
        holder_after(self.log) == Some(self.holder)
    }
}

/// A request a task can put to the arbiter.
pub enum BusRequest {
    /// Begin a transaction on this line.
    Acquire { line: u8 },
    /// Send these bytes within the transaction of this line.
    Transfer { line: u8, bytes: Seq<u8> },
    /// End the transaction of this line.
    Release { line: u8 },
}

/// The frames that carry `bytes` for `line`, one frame a byte.
pub open spec fn transfers(line: u8, bytes: Seq<u8>) -> Seq<BusEvent> {
    Seq::new(bytes.len(), |i: int| BusEvent::Transfer { line, byte: bytes[i] })
}

/// The arbiter after `line` asked for the bus: granted only if the bus is free.
pub open spec fn acquired(before: BusModel, line: u8) -> BusModel {
    if before.holder is None {
        BusModel { holder: Some(line), log: before.log.push(BusEvent::Select { line }) }
    } else {
        before
    }
}

/// The arbiter after `line` asked to send `bytes`: allowed only to the holder.
pub open spec fn transferred(before: BusModel, line: u8, bytes: Seq<u8>) -> BusModel {
    if before.holder == Some(line) {
        BusModel { holder: before.holder, log: before.log + transfers(line, bytes) }
    } else {
        before
    }
}

/// The arbiter after `line` gave the bus back: only the holder can.
pub open spec fn released(before: BusModel, line: u8) -> BusModel {
    if before.holder == Some(line) {
        BusModel { holder: None, log: before.log.push(BusEvent::Deselect { line }) }
    } else {
        before
    }
}

/// The arbiter after one request.
pub open spec fn served(before: BusModel, request: BusRequest) -> BusModel {
    match request {
        BusRequest::Acquire { line } => acquired(before, line),
        BusRequest::Transfer { line, bytes } => transferred(before, line, bytes),
        BusRequest::Release { line } => released(before, line),
    }
}

/// The arbiter after a whole sequence of requests, from any tasks in any order.
pub open spec fn served_all(before: BusModel, requests: Seq<BusRequest>) -> BusModel
    decreases requests.len(),
{
    if requests.len() == 0 {
        before
    } else {
        served(served_all(before, requests.drop_last()), requests.last())
    }
}

/// A logical device on the shared bus, known by its chip-select line.
#[derive(Clone, Copy, Debug, PartialEq, Eq, Structural)]
pub struct BusHandle {
    line: u8,
}

impl BusHandle {
    /// The device behind chip-select line `line`.
    pub fn new(line: u8) -> (handle: Self)
        ensures
            handle.line() == line,
    {
        BusHandle { line }
    }

    /// The chip-select line of this device.
    pub closed spec fn line(&self) -> u8 {
        self.line
    }

    /// The chip-select line of this device.
    #[verifier::when_used_as_spec(line)]
    pub fn chip_select(&self) -> (line: u8)
        ensures
            line == self.line(),
    {
        self.line
    }
}

/// Exclusive use of the bus, granted by [`BusArbiter::acquire`] and given
/// back with [`BusArbiter::release`].
#[derive(Debug)]
pub struct ScopedBusAccess {
    line: u8,
}

impl ScopedBusAccess {
    /// The chip-select line that was asserted for this access.
    pub closed spec fn line(&self) -> u8 {
        self.line
    }

    /// The chip-select line that was asserted for this access.
    pub fn chip_select(&self) -> (line: u8)
        ensures
            line == self.line(),
    {
        self.line
    }
}

/// Serializes the transactions of all devices on one bus.
pub struct BusArbiter {
    holder: Option<u8>,
    log: Ghost<Seq<BusEvent>>,
}

impl View for BusArbiter {
    type V = BusModel;

    closed spec fn view(&self) -> BusModel {
        BusModel { holder: self.holder, log: self.log@ }
    }
}

impl BusArbiter {
    #[verifier::type_invariant]
    spec fn consistent(self) -> bool {
        holder_after(self.log@) == Some(self.holder)
    }

    /// An arbiter for a bus that nobody holds.
    pub fn new() -> (arbiter: Self)
        ensures
            arbiter@ == BusModel::idle(),
            arbiter@.wf(),
    {
        BusArbiter { holder: None, log: Ghost(Seq::<BusEvent>::empty()) }
    }

    /// The line that holds the bus now, if any.
    pub fn holder(&self) -> (holder: Option<u8>)
        ensures
            holder == self@.holder,
            self@.wf(),
    {
        proof {
            use_type_invariant(self);
        }
        self.holder
    }

    /// Whether `access` is the access that holds the bus now.
    pub fn is_held_by(&self, access: &ScopedBusAccess) -> (held: bool)
        ensures
            held == (self@.holder == Some(access.line())),
    {
        match self.holder {
            Some(line) => line == access.line,
            None => false,
        }
    }

    /// Grants the bus to `handle` if nobody holds it, and asserts its
    /// chip-select line. While another access is outstanding nothing is
    /// granted and nothing changes: the caller suspends and asks again.
    pub fn acquire(&mut self, handle: &BusHandle) -> (granted: Option<ScopedBusAccess>)
        ensures
            granted is Some <==> old(self)@.holder is None,
            granted matches Some(access) ==> access.line() == handle.line(),
            final(self)@ == acquired(old(self)@, handle.line()),
            final(self)@.wf(),
    {
        proof {
            use_type_invariant(&*self);
        }
        match self.holder {
            Some(_) => None,
            None => {
                let line = handle.line;
                let ghost log = self.log@.push(BusEvent::Select { line });
                proof {
                    assert(log.drop_last() =~= self.log@);
                }
                *self = BusArbiter { holder: Some(line), log: Ghost(log) };
                Some(ScopedBusAccess { line })
            },
        }
    }

    /// Orders `bytes` onto the bus for the holder of `access`, who may then
    /// clock them out. An access that does not hold the bus is refused.
    pub fn transfer(&mut self, access: &ScopedBusAccess, bytes: &[u8]) -> (allowed: bool)
        ensures
            allowed == (old(self)@.holder == Some(access.line())),
            final(self)@ == transferred(old(self)@, access.line(), bytes@),
            final(self)@.wf(),
    {
        proof {
            use_type_invariant(&*self);
        }
        if self.is_held_by(access) {
            let ghost log = self.log@ + transfers(access.line, bytes@);
            proof {
                lemma_transfers_keep_holder(self.log@, access.line, bytes@);
            }
            *self = BusArbiter { holder: self.holder, log: Ghost(log) };
            true
        } else {
            false
        }
    }

    /// Ends the transaction of `access`: its chip-select line is de-asserted
    /// and the bus is free for the next caller. An access that does not hold
    /// the bus changes nothing.
    pub fn release(&mut self, access: ScopedBusAccess) -> (freed: bool)
        ensures
            freed == (old(self)@.holder == Some(access.line())),
            final(self)@ == released(old(self)@, access.line()),
            final(self)@.wf(),
    {
        proof {
            use_type_invariant(&*self);
        }
        if self.is_held_by(&access) {
            let ghost log = self.log@.push(BusEvent::Deselect { line: access.line });
            proof {
                assert(log.drop_last() =~= self.log@);
            }
            *self = BusArbiter { holder: None, log: Ghost(log) };
            true
        } else {
            false
        }
    }
}

/// Bytes sent by the holder leave the bus with the holder.
proof fn lemma_transfers_keep_holder(log: Seq<BusEvent>, line: u8, bytes: Seq<u8>)
    requires
        holder_after(log) == Some(Some(line)),
    ensures
        holder_after(log + transfers(line, bytes)) == Some(Some(line)),
    decreases bytes.len(),
{
    let extended = log + transfers(line, bytes);
    if bytes.len() == 0 {
        assert(extended =~= log);
    } else {
        assert(extended.drop_last() =~= log + transfers(line, bytes.drop_last()));
        assert(extended.last() == (BusEvent::Transfer { line, byte: bytes.last() }));
        lemma_transfers_keep_holder(log, line, bytes.drop_last());
    }
}

/// Position of the frame that began the transaction still open at the end of
/// `log`.
spec fn opening(log: Seq<BusEvent>) -> int
    decreases log.len(),
{
    if log.len() == 0 {
        -1
    } else if log.last() is Select {
        log.len() - 1
    } else {
        opening(log.drop_last())
    }
}

/// Whatever leads to a serialized log was serialized all along.
proof fn lemma_prefix_serialized(log: Seq<BusEvent>, len: int)
    requires
        serialized(log),
        0 <= len <= log.len(),
    ensures
        serialized(log.take(len)),
    decreases log.len(),
{
    if len == log.len() {
        assert(log.take(len) =~= log);
    } else {
        assert(log.drop_last().take(len) =~= log.take(len));
        lemma_prefix_serialized(log.drop_last(), len);
    }
}

/// While a line holds the bus, the frame that began its transaction is in the
/// log, and nothing has ended since.
proof fn lemma_open_transaction(log: Seq<BusEvent>, holder: u8)
    requires
        holder_after(log) == Some(Some(holder)),
    ensures
        0 <= opening(log) < log.len(),
        log[opening(log)] == (BusEvent::Select { line: holder }),
        no_release_between(log, opening(log), log.len() as int),
    decreases log.len(),
{
    if !(log.last() is Select) {
        let rest = log.drop_last();
        lemma_open_transaction(rest, holder);
        assert forall|m: int| opening(log) < m < log.len() implies !(#[trigger] log[m]
            is Deselect) by {
            if m < rest.len() {
                assert(rest[m] == log[m]);
            }
        }
    }
}

/// A transaction that began at `start` and has not ended yet belongs to the
/// line that holds the bus.
proof fn lemma_holder_is_opener(log: Seq<BusEvent>, start: int)
    requires
        serialized(log),
        0 <= start < log.len(),
        log[start] is Select,
        no_release_between(log, start, log.len() as int),
    ensures
        holder_after(log) == Some(Some(line_of(log[start]))),
    decreases log.len(),
{
    if start < log.len() - 1 {
        let rest = log.drop_last();
        assert(!(log[log.len() - 1] is Deselect));
        assert forall|m: int| start < m < rest.len() implies !(#[trigger] rest[m] is Deselect) by {
            assert(rest[m] == log[m]);
        }
        lemma_holder_is_opener(rest, start);
    }
}

/// In a serialized log no transaction is interrupted: between the frame that
/// begins one and the frame that ends it, every frame is a byte of the same
/// line; and no byte or release stands outside a transaction.
pub proof fn lemma_serialized_log(log: Seq<BusEvent>)
    requires
        serialized(log),
    ensures
        contiguous(log),
        enclosed(log),
{
    assert forall|start: int, at: int|
        0 <= start < at < log.len() && log[start] is Select && #[trigger] no_release_between(
            log,
            start,
            at,
        ) implies !(log[at] is Select) && line_of(log[at]) == line_of(log[start]) by {
        let upto = log.take(at);
        let with = log.take(at + 1);
        lemma_prefix_serialized(log, at);
        lemma_prefix_serialized(log, at + 1);
        assert forall|m: int| start < m < upto.len() implies !(#[trigger] upto[m] is Deselect) by {
            assert(upto[m] == log[m]);
        }
        lemma_holder_is_opener(upto, start);
        assert(with.drop_last() =~= upto);
        assert(with.last() == log[at]);
    }
    assert forall|at: int| 0 <= at < log.len() && !(#[trigger] log[at] is Select) implies exists|
        start: int,
    |
        0 <= start < at && log[start] is Select && #[trigger] no_release_between(
            log,
            start,
            at,
        ) by {
        let upto = log.take(at);
        let with = log.take(at + 1);
        lemma_prefix_serialized(log, at + 1);
        assert(with.drop_last() =~= upto);
        assert(with.last() == log[at]);
        let holder = line_of(log[at]);
        assert(holder_after(upto) == Some(Some(holder)));
        lemma_open_transaction(upto, holder);
        let start = opening(upto);
        assert(log[start] == upto[start]);
        assert forall|m: int| start < m < at implies !(#[trigger] log[m] is Deselect) by {
            assert(upto[m] == log[m]);
        }
        assert(no_release_between(log, start, at));
    }
}

/// Serving a request keeps the recorded holder in step with the log.
pub proof fn lemma_served_keeps_order(before: BusModel, request: BusRequest)
    requires
        before.wf(),
    ensures
        served(before, request).wf(),
{
    let after = served(before, request);
    match request {
        BusRequest::Transfer { line, bytes } => {
            if before.holder == Some(line) {
                lemma_transfers_keep_holder(before.log, line, bytes);
            }
        },
        _ => {
            if after != before {
                assert(after.log.drop_last() =~= before.log);
            }
        },
    }
}

/// Mutual exclusion: whatever requests the tasks make, and however they
/// interleave, the frames the arbiter lets through form whole transactions
/// one after another, each holding frames of one line only.
pub proof fn lemma_transactions_never_interleave(requests: Seq<BusRequest>)
    ensures
        served_all(BusModel::idle(), requests).wf(),
        serialized(served_all(BusModel::idle(), requests).log),
        contiguous(served_all(BusModel::idle(), requests).log),
        enclosed(served_all(BusModel::idle(), requests).log),
    decreases requests.len(),
{
    if requests.len() > 0 {
        lemma_transactions_never_interleave(requests.drop_last());
        lemma_served_keeps_order(
            served_all(BusModel::idle(), requests.drop_last()),
            requests.last(),
        );
    }
    lemma_serialized_log(served_all(BusModel::idle(), requests).log);
}

/// The frames of one whole transaction of `line` that carries `bytes`.
pub open spec fn transaction(line: u8, bytes: Seq<u8>) -> Seq<BusEvent> {
    seq![BusEvent::Select { line }] + transfers(line, bytes) + seq![BusEvent::Deselect { line }]
}

/// A request that does not come from the holder `line` itself acting within
/// its transaction: any request to acquire, and any transfer or release of
/// another line.
pub open spec fn foreign_to(request: BusRequest, line: u8) -> bool {
    match request {
        BusRequest::Acquire { line: other } => true,
        BusRequest::Transfer { line: other, bytes } => other != line,
        BusRequest::Release { line: other } => other != line,
    }
}

/// Every one of `requests` is foreign to `line`.
pub open spec fn all_foreign_to(requests: Seq<BusRequest>, line: u8) -> bool {
    forall|i: int| 0 <= i < requests.len() ==> foreign_to(#[trigger] requests[i], line)
}

/// Serving two sequences of requests one after the other is serving their
/// concatenation.
pub proof fn lemma_served_all_concat(
    before: BusModel,
    head: Seq<BusRequest>,
    tail: Seq<BusRequest>,
)
    ensures
        served_all(before, head + tail) == served_all(served_all(before, head), tail),
    decreases tail.len(),
{
    if tail.len() == 0 {
        assert(head + tail =~= head);
    } else {
        assert((head + tail).drop_last() =~= head + tail.drop_last());
        assert((head + tail).last() == tail.last());
        lemma_served_all_concat(before, head, tail.drop_last());
    }
}

/// While a line holds the bus, nothing the other tasks ask for changes
/// anything: no frame of theirs goes out and the bus stays with its holder.
pub proof fn lemma_holder_is_undisturbed(before: BusModel, requests: Seq<BusRequest>, line: u8)
    requires
        before.holder == Some(line),
        all_foreign_to(requests, line),
    ensures
        served_all(before, requests) == before,
    decreases requests.len(),
{
    if requests.len() > 0 {
        assert forall|i: int| 0 <= i < requests.drop_last().len() implies foreign_to(
            #[trigger] requests.drop_last()[i],
            line,
        ) by {
            assert(requests.drop_last()[i] == requests[i]);
        }
        lemma_holder_is_undisturbed(before, requests.drop_last(), line);
        assert(foreign_to(requests[requests.len() - 1], line));
    }
}

/// A granted transaction goes out whole and in order. When `line` acquires a
/// free bus, sends `bytes` and releases, the log grows by exactly the frames
/// of that transaction, and the bus is free again, whatever the other tasks
/// ask for in between.
pub proof fn lemma_granted_transaction_is_whole(
    before: BusModel,
    line: u8,
    bytes: Seq<u8>,
    meanwhile: Seq<BusRequest>,
    afterwards: Seq<BusRequest>,
)
    requires
        before.holder is None,
        all_foreign_to(meanwhile, line),
        all_foreign_to(afterwards, line),
    ensures
        served_all(
            before,
            seq![BusRequest::Acquire { line }] + meanwhile + seq![
                BusRequest::Transfer { line, bytes },
            ] + afterwards + seq![BusRequest::Release { line }],
        ) == (BusModel { holder: None, log: before.log + transaction(line, bytes) }),
{
    let acquire = seq![BusRequest::Acquire { line }];
    let transfer = seq![BusRequest::Transfer { line, bytes }];
    let release = seq![BusRequest::Release { line }];
    let held = acquired(before, line);
    let sent = transferred(held, line, bytes);
    lemma_served_one(before, BusRequest::Acquire { line });
    lemma_served_all_concat(before, acquire, meanwhile);
    lemma_holder_is_undisturbed(held, meanwhile, line);
    lemma_served_one(held, BusRequest::Transfer { line, bytes });
    lemma_served_all_concat(before, acquire + meanwhile, transfer);
    lemma_served_all_concat(before, acquire + meanwhile + transfer, afterwards);
    lemma_holder_is_undisturbed(sent, afterwards, line);
    lemma_served_one(sent, BusRequest::Release { line });
    lemma_served_all_concat(before, acquire + meanwhile + transfer + afterwards, release);
    assert(before.log.push(BusEvent::Select { line }) + transfers(line, bytes) =~= before.log
        + (seq![BusEvent::Select { line }] + transfers(line, bytes)));
    assert((before.log.push(BusEvent::Select { line }) + transfers(line, bytes)).push(
        BusEvent::Deselect { line },
    ) =~= before.log + transaction(line, bytes));
}

/// Serving a single request.
proof fn lemma_served_one(before: BusModel, request: BusRequest)
    ensures
        served_all(before, seq![request]) == served(before, request),
{
    let one = seq![request];
    assert(one.drop_last() =~= Seq::<BusRequest>::empty());
    assert(one.last() == request);
    assert(served_all(before, one.drop_last()) == before);
    assert(served_all(before, one) == served(served_all(before, one.drop_last()), one.last()));
}

/// Checks a captured log: whether its transactions follow one another without
/// overlapping.
pub fn is_serialized(log: &[BusEvent]) -> (ok: bool)
    ensures
        ok == serialized(log@),
{
    let mut holder: Option<u8> = None;
    let mut at: usize = 0;
    while at < log.len()
        invariant
            at <= log.len(),
            holder_after(log@.take(at as int)) == Some(holder),
        decreases log.len() - at,
    {
        let event = log[at];
        proof {
            assert(log@.take(at + 1).drop_last() =~= log@.take(at as int));
            assert(log@.take(at + 1).last() == event);
            if serialized(log@) {
                lemma_prefix_serialized(log@, at + 1);
            }
        }
        let next: Option<Option<u8>> = match (holder, event) {
            (None, BusEvent::Select { line }) => Some(Some(line)),
            (Some(current), BusEvent::Transfer { line, byte }) => if line == current {
                Some(holder)
            } else {
                None
            },
            (Some(current), BusEvent::Deselect { line }) => if line == current {
                Some(None)
            } else {
                None
            },
            _ => None,
        };
        match next {
            Some(after) => {
                holder = after;
            },
            None => {
                return false;
            },
        }
        at = at + 1;
    }
    proof {
        assert(log@.take(at as int) =~= log@);
    }
    true
}

} // verus!
