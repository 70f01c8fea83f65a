//! The table of live transactions.
//!
//! Messages, timers and responses from the transaction user come in; what is
//! to be sent, told, armed or released comes out as a list of commands, in the
//! order in which they must be carried out.

use vstd::prelude::*;

use super::machine::{step, Flavor, Machine};
use super::matching::{
    cseq_method, cseq_method_of, parse_status, sent_by_of, top_via_sent_by,
};
use super::timers::{Millis, TIMEOUT_64T1};
use super::{
    actions_view, is_success, ActionView, EventView, KeyView, Role, TimerId, Transaction,
    TransactionAction, TransactionEvent, TransactionKey, TransactionState, TxnView,
};
use crate::table::{key1, key3, key_view, Key, Table};
use crate::text;
use crate::uas::parse::status_of;

verus! {

/// How long after a client INVITE transaction closed on a 2xx a repeated 2xx
/// is still answered with the registered ACK.
pub const ACK_2XX_WINDOW: Millis = TIMEOUT_64T1;

/// What a transaction tells its user.
#[derive(Clone, Debug)]
pub enum TuEvent {
    /// A response from the peer.
    Response {
        /// Status code.
        status: u16,
        /// Raw response.
        bytes: Vec<u8>,
    },
    /// The transaction is over.
    Terminated,
}

/// What is to be done outside.
#[derive(Clone, Debug)]
pub enum DriverCommand {
    /// Write these bytes to the transaction's peer.
    Send(Vec<u8>),
    /// Tell the transaction user.
    Tell(TuEvent),
    /// Start a timer, replacing one of the same name.
    Arm {
        /// Which timer.
        id: TimerId,
        /// When it fires.
        after: Millis,
    },
    /// Stop a timer.
    Cancel(TimerId),
    /// Count one more live server transaction.
    CountUp,
    /// Count one live server transaction less.
    CountDown,
    /// Stop every timer of the transaction. With `lingers`, keep listening on
    /// its branch for [`ACK_2XX_WINDOW`] and answer repeated 2xx responses.
    Release {
        /// A client INVITE closed on a 2xx.
        lingers: bool,
    },
}

/// Model of a [`TuEvent`].
#[verifier::ext_equal]
pub enum TuView {
    Response { status: u16, bytes: Seq<u8> },
    Terminated,
}

/// Model of a [`DriverCommand`].
#[verifier::ext_equal]
pub enum CommandView {
    Send(Seq<u8>),
    Tell(TuView),
    Arm { id: TimerId, after: Millis },
    Cancel(TimerId),
    CountUp,
    CountDown,
    Release { lingers: bool },
}

impl View for TuEvent {
    type V = TuView;

    open spec fn view(&self) -> TuView {
        match *self {
            TuEvent::Response { status, bytes } => TuView::Response { status, bytes: bytes@ },
            TuEvent::Terminated => TuView::Terminated,
        }
    }
}

impl View for DriverCommand {
    type V = CommandView;

    open spec fn view(&self) -> CommandView {
        match *self {
            DriverCommand::Send(b) => CommandView::Send(b@),
            DriverCommand::Tell(e) => CommandView::Tell(e@),
            DriverCommand::Arm { id, after } => CommandView::Arm { id, after },
            DriverCommand::Cancel(id) => CommandView::Cancel(id),
            DriverCommand::CountUp => CommandView::CountUp,
            DriverCommand::CountDown => CommandView::CountDown,
            DriverCommand::Release { lingers } => CommandView::Release { lingers },
        }
    }
}

/// The models of a list of commands.
pub open spec fn commands_view(v: Seq<DriverCommand>) -> Seq<CommandView> {
    Seq::new(v.len(), |i: int| v[i]@)
}

/// One live transaction.
pub struct TxnSlot {
    machine: Machine,
    sent_by: Option<String>,
    got_2xx: bool,
}

/// Model of a [`TxnSlot`].
#[verifier::ext_equal]
pub struct SlotView {
    /// Which machine it runs.
    pub flavor: Flavor,
    /// The machine's state.
    pub txn: TxnView,
    /// `sent-by` of the request that opened a server transaction.
    pub sent_by: Option<Seq<char>>,
    /// A 2xx to a client INVITE was handed to the transaction user.
    pub got_2xx: bool,
}

impl View for TxnSlot {
    type V = SlotView;

    closed spec fn view(&self) -> SlotView {
        SlotView {
            flavor: self.machine.flavor(),
            txn: self.machine.model(),
            sent_by: text::text_opt(self.sent_by),
            got_2xx: self.got_2xx,
        }
    }
}

/// Where a transaction stands in the table.
pub open spec fn path(key: KeyView) -> Seq<Seq<char>> {
    seq![
        key.branch,
        key.method,
        match key.role {
            Role::Client => "client"@,
            Role::Server => "server"@,
        },
    ]
}

/// Two keys share a place only if they are the same key.
pub proof fn paths_are_distinct(a: KeyView, b: KeyView)
    requires
        path(a) == path(b),
    ensures
        a == b,
{
    reveal_strlit("client");
    reveal_strlit("server");
    assert(path(a)[0] == a.branch && path(b)[0] == b.branch);
    assert(path(a)[1] == a.method && path(b)[1] == b.method);
    assert(path(a)[2] == path(b)[2]);
    if a.role != b.role {
        assert("client"@[0] != "server"@[0]);
    }
}

/// `a` hands a 2xx to the user of a client INVITE transaction.
pub open spec fn opens_dialog(key: KeyView, a: ActionView) -> bool {
    key.role == Role::Client && key.method == "INVITE"@ && (a matches
        ActionView::DeliverResponseToTu { status, .. } && is_success(status))
}

/// One of `actions` hands a 2xx to the user of a client INVITE transaction.
pub open spec fn opens_dialog_in(key: KeyView, actions: Seq<ActionView>) -> bool {
    exists|i: int| 0 <= i < actions.len() && opens_dialog(key, #[trigger] actions[i])
}

/// `actions` ends the transaction.
pub open spec fn ends_in(actions: Seq<ActionView>) -> bool {
    exists|i: int| 0 <= i < actions.len() && #[trigger] actions[i] == ActionView::Terminated
}

/// The commands that carry out one action; `got_2xx` tells whether a 2xx was
/// handed over by then.
pub open spec fn commands_of(key: KeyView, a: ActionView, got_2xx: bool) -> Seq<CommandView> {
    match a {
        ActionView::SendToPeer(b) => seq![CommandView::Send(b)],
        ActionView::DeliverResponseToTu { status, bytes } => seq![
            CommandView::Tell(TuView::Response { status, bytes }),
        ],
        ActionView::ArmTimer { id, after } => seq![CommandView::Arm { id, after }],
        ActionView::CancelTimer(id) => seq![CommandView::Cancel(id)],
        ActionView::Terminated => {
            let release = CommandView::Release {
                lingers: got_2xx && key.role == Role::Client && key.method == "INVITE"@,
            };
            if key.role == Role::Server {
                seq![release, CommandView::CountDown, CommandView::Tell(TuView::Terminated)]
            } else {
                seq![release, CommandView::Tell(TuView::Terminated)]
            }
        },
    }
}

/// The commands that carry out `actions` from `i` on, in order.
pub open spec fn commands_from(
    key: KeyView,
    actions: Seq<ActionView>,
    got_2xx: bool,
    i: int,
) -> Seq<CommandView>
    decreases actions.len() - i,
{
    if i < 0 || i >= actions.len() {
        seq![]
    } else {
        let got = got_2xx || opens_dialog(key, actions[i]);
        commands_of(key, actions[i], got) + commands_from(key, actions, got, i + 1)
    }
}

/// A slot after an event.
pub open spec fn slot_after(slot: SlotView, event: EventView) -> SlotView {
    let (txn, actions) = step(slot.flavor, slot.txn, event);
    SlotView { txn, got_2xx: slot.got_2xx || opens_dialog_in(slot.txn.key, actions), ..slot }
}

/// The table, and the commands, after an event for the transaction at `p`. A
/// transaction that ended leaves the table. An event for a transaction that is
/// not there does nothing.
pub open spec fn table_after(
    table: Map<Seq<Seq<char>>, SlotView>,
    p: Seq<Seq<char>>,
    event: EventView,
) -> (Map<Seq<Seq<char>>, SlotView>, Seq<CommandView>) {
    if table.contains_key(p) {
        let slot = table[p];
        let actions = step(slot.flavor, slot.txn, event).1;
        let commands = commands_from(slot.txn.key, actions, slot.got_2xx, 0);
        if ends_in(actions) {
            (table.remove(p), commands)
        } else {
            (table.insert(p, slot_after(slot, event)), commands)
        }
    } else {
        (table, seq![])
    }
}

/// A slot for a transaction that is about to start.
pub open spec fn fresh_slot(
    flavor: Flavor,
    txn: TxnView,
    reliable: bool,
    sent_by: Option<Seq<char>>,
) -> SlotView {
    SlotView { flavor, txn: TxnView { reliable, ..txn }, sent_by, got_2xx: false }
}

/// An ACK for a 2xx, and where it goes.
pub struct AckFor2xx {
    peer: String,
    bytes: Vec<u8>,
}

/// The live transactions of one transport.
pub struct TransactionDriver {
    slots: Table<TxnSlot>,
    acks: Table<AckFor2xx>,
    reliable: bool,
}

impl TransactionDriver {
    /// The live transactions by their place.
    pub closed spec fn slots(&self) -> Map<Seq<Seq<char>>, SlotView> {
        self.slots@.map_values(|s: TxnSlot| s@)
    }

    /// The registered ACKs, each with its destination, by INVITE branch.
    pub closed spec fn acks(&self) -> Map<Seq<Seq<char>>, (Seq<char>, Seq<u8>)> {
        self.acks@.map_values(|a: AckFor2xx| (a.peer@, a.bytes@))
    }

    /// `true` on a transport that delivers every message.
    pub closed spec fn reliable(&self) -> bool {
        self.reliable
    }

    /// Every transaction stands at the place that its key names.
    pub closed spec fn wf(&self) -> bool {
        &&& self.slots@.dom().finite()
        &&& forall|p: Seq<Seq<char>>| #[trigger]
            self.slots@.contains_key(p) ==> path(self.slots@[p]@.txn.key) == p
    }

    /// An empty table for a transport.
    pub fn new(reliable: bool) -> (r: Self)
        ensures
            r.wf(),
            r.slots().dom() == Set::<Seq<Seq<char>>>::empty(),
            r.acks().dom() == Set::<Seq<Seq<char>>>::empty(),
            r.reliable() == reliable,
    {
        let r = TransactionDriver { slots: Table::new(), acks: Table::new(), reliable };
        assert(r.slots().dom() =~= Set::empty());
        assert(r.acks().dom() =~= Set::empty());
        r
    }

    /// Number of live transactions.
    pub fn active(&self) -> (r: usize)
        requires
            self.wf(),
        ensures
            self.slots().dom().finite(),
            r == self.slots().dom().len(),
    {
        assert(self.slots().dom() =~= self.slots@.dom());
        self.slots.len()
    }

    /// `true` while the transaction is live.
    pub fn is_alive(&self, key: &TransactionKey) -> (r: bool)
        ensures
            r == self.slots().contains_key(path(key@)),
    {
        self.slots.contains_key(&key_path(key))
    }

    /// The state of a live transaction.
    pub fn state(&mut self, key: &TransactionKey) -> (r: Option<TransactionState>)
        requires
            old(self).wf(),
        ensures
            final(self).wf(),
            final(self).slots() == old(self).slots(),
            final(self).acks() == old(self).acks(),
            final(self).reliable() == old(self).reliable(),
            r is Some <==> old(self).slots().contains_key(path(key@)),
            r matches Some(s) ==> s == old(self).slots()[path(key@)].txn.state,
    {
        let p = key_path(key);
        match self.slots.remove(&p) {
            Some(slot) => {
                let s = slot.machine.state();
                self.slots.insert(p, slot);
                assert(self.slots@ =~= old(self).slots@);
                Some(s)
            },
            None => {
                assert(self.slots@ =~= old(self).slots@);
                None
            },
        }
    }

    /// Feeds an event to the transaction at `p`.
    fn feed(&mut self, p: Key, event: TransactionEvent) -> (r: Vec<DriverCommand>)
        requires
            old(self).wf(),
        ensures
            final(self).wf(),
            (final(self).slots(), commands_view(r@)) == table_after(
                old(self).slots(),
                key_view(p),
                event@,
            ),
            final(self).acks() == old(self).acks(),
            final(self).reliable() == old(self).reliable(),
    {
        let ghost place = key_view(p);
        match self.slots.remove(&p) {
            Some(slot) => {
                let mut slot = slot;
                let ghost before = slot@;
                let ghost actions_spec = step(before.flavor, before.txn, event@).1;
                assert(before == old(self).slots()[place]);
                let key = slot.machine.key().duplicate();
                let actions = slot.machine.on_event(event);
                let (commands, ended, got) = carry_out(&key, actions, slot.got_2xx);
                slot.got_2xx = got;
                if !ended {
                    proof {
                        super::machine::steps_go_forward(before.flavor, before.txn, event@);
                    }
                    self.slots.insert(p, slot);
                    proof {
                        assert(slot@ =~= slot_after(before, event@));
                        assert(self.slots() =~= old(self).slots().insert(place, slot@));
                    }
                } else {
                    assert(self.slots() =~= old(self).slots().remove(place));
                }
                commands
            },
            None => {
                let none: Vec<DriverCommand> = Vec::new();
                proof {
                    assert(self.slots() =~= old(self).slots());
                    assert(commands_view(none@) =~= seq![]);
                }
                none
            },
        }
    }

    /// Registers a client transaction and sends its request. A transaction
    /// with the same key is replaced.
    pub fn start_client(&mut self, machine: Machine) -> (r: Vec<DriverCommand>)
        requires
            old(self).wf(),
        ensures
            final(self).wf(),
            ({
                let place = path(machine.model().key);
                let slot = fresh_slot(
                    machine.flavor(),
                    machine.model(),
                    old(self).reliable(),
                    None,
                );
                (final(self).slots(), commands_view(r@)) == table_after(
                    old(self).slots().insert(place, slot),
                    place,
                    EventView::StartClient,
                )
            }),
            final(self).acks() == old(self).acks(),
            final(self).reliable() == old(self).reliable(),
    {
        let p = self.register(machine, None);
        self.feed(p, TransactionEvent::StartClient)
    }

    fn register(&mut self, machine: Machine, sent_by: Option<String>) -> (r: Key)
        requires
            old(self).wf(),
        ensures
            final(self).wf(),
            key_view(r) == path(machine.model().key),
            final(self).slots() == old(self).slots().insert(
                path(machine.model().key),
                fresh_slot(
                    machine.flavor(),
                    machine.model(),
                    old(self).reliable(),
                    text::text_opt(sent_by),
                ),
            ),
            final(self).acks() == old(self).acks(),
            final(self).reliable() == old(self).reliable(),
    {
        let ghost given = machine;
        let mut machine = machine;
        machine.set_reliable(self.reliable);
        let p = key_path(machine.key());
        let q = key_path(machine.key());
        let slot = TxnSlot { machine, sent_by, got_2xx: false };
        self.slots.insert(p, slot);
        proof {
            assert(slot@ =~= fresh_slot(
                given.flavor(),
                given.model(),
                old(self).reliable(),
                text::text_opt(sent_by),
            ));
            assert(self.slots() =~= old(self).slots().insert(path(given.model().key), slot@));
        }
        q
    }

    /// Registers a server transaction for a request that arrived.
    pub fn start_server(&mut self, machine: Machine) -> (r: Vec<DriverCommand>)
        requires
            old(self).wf(),
        ensures
            final(self).wf(),
            final(self).slots() == old(self).slots().insert(
                path(machine.model().key),
                fresh_slot(machine.flavor(), machine.model(), old(self).reliable(), None),
            ),
            commands_view(r@) == seq![CommandView::CountUp],
            final(self).acks() == old(self).acks(),
            final(self).reliable() == old(self).reliable(),
    {
        self.register(machine, None);
        let r = vec![DriverCommand::CountUp];
        assert(commands_view(r@) =~= seq![CommandView::CountUp]);
        r
    }

    /// Registers a server transaction for a request that arrived from
    /// `sent_by`; a request from elsewhere is then no repetition of it.
    pub fn start_server_with_sent_by(&mut self, machine: Machine, sent_by: &str) -> (r: Vec<
        DriverCommand,
    >)
        requires
            old(self).wf(),
        ensures
            final(self).wf(),
            final(self).slots() == old(self).slots().insert(
                path(machine.model().key),
                fresh_slot(
                    machine.flavor(),
                    machine.model(),
                    old(self).reliable(),
                    Some(sent_by@),
                ),
            ),
            commands_view(r@) == seq![CommandView::CountUp],
            final(self).acks() == old(self).acks(),
            final(self).reliable() == old(self).reliable(),
    {
        self.register(machine, Some(sent_by.to_owned()));
        let r = vec![DriverCommand::CountUp];
        assert(commands_view(r@) =~= seq![CommandView::CountUp]);
        r
    }

    /// Feeds a response with a known status.
    pub fn deliver_response(&mut self, key: &TransactionKey, status: u16, bytes: Vec<u8>) -> (r:
        Vec<DriverCommand>)
        requires
            old(self).wf(),
        ensures
            final(self).wf(),
            (final(self).slots(), commands_view(r@)) == table_after(
                old(self).slots(),
                path(key@),
                EventView::ResponseReceived { status, bytes: bytes@ },
            ),
            final(self).acks() == old(self).acks(),
            final(self).reliable() == old(self).reliable(),
    {
        self.feed(key_path(key), TransactionEvent::ResponseReceived { status, bytes })
    }

    /// Feeds a response that arrived on the transaction's branch. One whose
    /// `CSeq` names another method belongs to another transaction and is
    /// dropped.
    pub fn on_response(&mut self, key: &TransactionKey, bytes: Vec<u8>) -> (r: Vec<DriverCommand>)
        requires
            old(self).wf(),
        ensures
            final(self).wf(),
            (final(self).slots(), commands_view(r@)) == if is_foreign(key@, bytes@) {
                (old(self).slots(), seq![])
            } else {
                table_after(
                    old(self).slots(),
                    path(key@),
                    EventView::ResponseReceived { status: status_or_zero(bytes@), bytes: bytes@ },
                )
            },
            final(self).acks() == old(self).acks(),
            final(self).reliable() == old(self).reliable(),
    {
        match cseq_method(&bytes) {
            Some(m) => {
                if m != key.method {
                    let none: Vec<DriverCommand> = Vec::new();
                    assert(commands_view(none@) =~= seq![]);
                    return none;
                }
            },
            None => {},
        }
        let status: u16 = match parse_status(&bytes) {
            Some(s) => s,
            None => 0,
        };
        self.deliver_response(key, status, bytes)
    }

    /// Feeds a request, or a repetition of it, to a server transaction. A
    /// request from another `sent-by` than the one that opened the transaction
    /// is dropped.
    pub fn deliver_request(&mut self, key: &TransactionKey, method: String, bytes: Vec<u8>) -> (r:
        Vec<DriverCommand>)
        requires
            old(self).wf(),
        ensures
            final(self).wf(),
            (final(self).slots(), commands_view(r@)) == if from_elsewhere(
                old(self).slots(),
                path(key@),
                bytes@,
            ) {
                (old(self).slots(), seq![])
            } else {
                table_after(
                    old(self).slots(),
                    path(key@),
                    EventView::RequestReceived { method: method@, bytes: bytes@ },
                )
            },
            final(self).acks() == old(self).acks(),
            final(self).reliable() == old(self).reliable(),
    {
        let p = key_path(key);
        let foreign = match self.slots.remove(&p) {
            Some(slot) => {
                let f = match (&slot.sent_by, top_via_sent_by(&bytes)) {
                    (Some(expected), Some(actual)) => actual != *expected,
                    _ => false,
                };
                self.slots.insert(p, slot);
                f
            },
            None => false,
        };
        proof {
            assert(self.slots@ =~= old(self).slots@);
            assert(self.slots() =~= old(self).slots());
            assert(foreign == from_elsewhere(old(self).slots(), path(key@), bytes@));
        }
        if foreign {
            let none: Vec<DriverCommand> = Vec::new();
            assert(commands_view(none@) =~= seq![]);
            return none;
        }
        self.feed(key_path(key), TransactionEvent::RequestReceived { method, bytes })
    }

    /// Sends a response through a server transaction.
    pub fn send_response(&mut self, key: &TransactionKey, status: u16, bytes: Vec<u8>) -> (r: Vec<
        DriverCommand,
    >)
        requires
            old(self).wf(),
        ensures
            final(self).wf(),
            (final(self).slots(), commands_view(r@)) == table_after(
                old(self).slots(),
                path(key@),
                EventView::SendResponseFromTu { status, bytes: bytes@ },
            ),
            final(self).acks() == old(self).acks(),
            final(self).reliable() == old(self).reliable(),
    {
        self.feed(key_path(key), TransactionEvent::SendResponseFromTu { status, bytes })
    }

    /// A timer of the transaction fired.
    pub fn fire_timer(&mut self, key: &TransactionKey, id: TimerId) -> (r: Vec<DriverCommand>)
        requires
            old(self).wf(),
        ensures
            final(self).wf(),
            (final(self).slots(), commands_view(r@)) == table_after(
                old(self).slots(),
                path(key@),
                EventView::TimerFired(id),
            ),
            final(self).acks() == old(self).acks(),
            final(self).reliable() == old(self).reliable(),
    {
        self.feed(key_path(key), TransactionEvent::TimerFired(id))
    }

    /// Registers the ACK that the transaction user sent to `peer` for the 2xx
    /// to its INVITE on `branch`.
    pub fn register_ack_for_2xx(&mut self, branch: &str, peer: &str, ack: Vec<u8>)
        requires
            old(self).wf(),
        ensures
            final(self).wf(),
            final(self).slots() == old(self).slots(),
            final(self).acks() == old(self).acks().insert(seq![branch@], (peer@, ack@)),
            final(self).reliable() == old(self).reliable(),
    {
        self.acks.insert(key1(branch), AckFor2xx { peer: peer.to_owned(), bytes: ack });
        assert(self.acks() =~= old(self).acks().insert(seq![branch@], (peer@, ack@)));
    }

    /// `true` while a repeated 2xx on `branch` is answered.
    pub fn has_ack_for_2xx(&self, branch: &str) -> (r: bool)
        ensures
            r == self.acks().contains_key(seq![branch@]),
    {
        self.acks.contains_key(&key1(branch))
    }

    /// What answers a response that arrives on `branch` after its INVITE
    /// transaction closed: the registered ACK and its destination, if the
    /// response is a 2xx.
    pub fn answer_2xx(&mut self, branch: &str, bytes: &[u8]) -> (r: Option<(String, Vec<u8>)>)
        requires
            old(self).wf(),
        ensures
            final(self).wf(),
            final(self).slots() == old(self).slots(),
            final(self).acks() == old(self).acks(),
            final(self).reliable() == old(self).reliable(),
            r is Some <==> is_success(status_or_zero(bytes@)) && old(self).acks().contains_key(
                seq![branch@],
            ),
            r matches Some(a) ==> (a.0@, a.1@) == old(self).acks()[seq![branch@]],
    {
        let status: u16 = match parse_status(bytes) {
            Some(s) => s,
            None => 0,
        };
        if status < 200 || status >= 300 {
            return None;
        }
        let p = key1(branch);
        let r = match self.acks.remove(&p) {
            Some(a) => {
                let answer = (a.peer.clone(), text::copy_bytes(&a.bytes));
                self.acks.insert(p, a);
                Some(answer)
            },
            None => None,
        };
        assert(self.acks@ =~= old(self).acks@);
        r
    }

    /// Forgets the ACK for `branch`.
    pub fn forget_ack(&mut self, branch: &str)
        requires
            old(self).wf(),
        ensures
            final(self).wf(),
            final(self).slots() == old(self).slots(),
            final(self).acks() == old(self).acks().remove(seq![branch@]),
            final(self).reliable() == old(self).reliable(),
    {
        self.acks.remove(&key1(branch));
        assert(self.acks() =~= old(self).acks().remove(seq![branch@]));
    }
}

/// The response names another method than the transaction's.
pub open spec fn is_foreign(key: KeyView, bytes: Seq<u8>) -> bool {
    cseq_method_of(bytes) is Some && cseq_method_of(bytes)->0 != key.method
}

/// The status of a response, 0 when it cannot be read.
pub open spec fn status_or_zero(bytes: Seq<u8>) -> u16 {
    match status_of(bytes) {
        Some(s) => s as u16,
        None => 0,
    }
}

/// The request comes from another `sent-by` than the transaction's.
pub open spec fn from_elsewhere(
    table: Map<Seq<Seq<char>>, SlotView>,
    p: Seq<Seq<char>>,
    bytes: Seq<u8>,
) -> bool {
    table.contains_key(p) && table[p].sent_by is Some && sent_by_of(bytes) is Some && sent_by_of(
        bytes,
    )->0 != table[p].sent_by->0
}

fn key_path(key: &TransactionKey) -> (r: Key)
    ensures
        key_view(r) == path(key@),
{
    match key.role {
        Role::Client => key3(&key.branch, &key.method, "client"),
        Role::Server => key3(&key.branch, &key.method, "server"),
    }
}

/// Turns actions into commands. Also returns whether they end the transaction
/// and whether a 2xx was handed over by then.
fn carry_out(key: &TransactionKey, actions: Vec<TransactionAction>, got_2xx: bool) -> (r: (
    Vec<DriverCommand>,
    bool,
    bool,
))
    ensures
        commands_view(r.0@) == commands_from(key@, actions_view(actions@), got_2xx, 0),
        r.1 == ends_in(actions_view(actions@)),
        r.2 == (got_2xx || opens_dialog_in(key@, actions_view(actions@))),
{
    let invite_client = match key.role {
        Role::Client => key.method == "INVITE".to_owned(),
        Role::Server => false,
    };
    let ghost all = actions_view(actions@);
    let mut out: Vec<DriverCommand> = Vec::new();
    let mut ended: bool = false;
    let mut got: bool = got_2xx;
    let mut i: usize = 0;
    assert(commands_view(out@) =~= seq![]);
    while i < actions.len()
        invariant
            i <= actions@.len(),
            all == actions_view(actions@),
            invite_client == (key@.role == Role::Client && key@.method == "INVITE"@),
            commands_view(out@) + commands_from(key@, all, got, i as int) =~= commands_from(
                key@,
                all,
                got_2xx,
                0,
            ),
            ended == (exists|j: int| 0 <= j < i && #[trigger] all[j] == ActionView::Terminated),
            got == (got_2xx || exists|j: int| 0 <= j < i && opens_dialog(key@, #[trigger] all[j])),
        decreases actions.len() - i,
    {
        let ghost before = out@;
        let ghost got_before = got;
        assert(all[i as int] == actions@[i as int]@);
        match &actions[i] {
            TransactionAction::SendToPeer(b) => {
                out.push(DriverCommand::Send(text::copy_bytes(b)));
            },
            TransactionAction::DeliverResponseToTu { status, bytes } => {
                if invite_client && 200 <= *status && *status < 300 {
                    got = true;
                }
                out.push(
                    DriverCommand::Tell(
                        TuEvent::Response { status: *status, bytes: text::copy_bytes(bytes) },
                    ),
                );
            },
            TransactionAction::ArmTimer { id, after } => {
                out.push(DriverCommand::Arm { id: *id, after: *after });
            },
            TransactionAction::CancelTimer(id) => {
                out.push(DriverCommand::Cancel(*id));
            },
            TransactionAction::Terminated => {
                ended = true;
                out.push(DriverCommand::Release { lingers: got && invite_client });
                match key.role {
                    Role::Server => {
                        out.push(DriverCommand::CountDown);
                    },
                    Role::Client => {},
                }
                out.push(DriverCommand::Tell(TuEvent::Terminated));
            },
        }
        proof {
            assert(got == (got_before || opens_dialog(key@, all[i as int])));
            assert(commands_view(out@) =~= commands_view(before) + commands_of(
                key@,
                all[i as int],
                got,
            ));
        }
        i = i + 1;
    }
    (out, ended, got)
}

// ---------------------------------------------------------------------
// Laws
// ---------------------------------------------------------------------

/// An event for one transaction leaves every other one as it was.
pub proof fn transactions_are_independent(
    table: Map<Seq<Seq<char>>, SlotView>,
    key: KeyView,
    other: KeyView,
    event: EventView,
)
    requires
        key != other,
    ensures
        ({
            let after = table_after(table, path(key), event).0;
            &&& after.contains_key(path(other)) == table.contains_key(path(other))
            &&& table.contains_key(path(other)) ==> after[path(other)] == table[path(other)]
        }),
{
    if path(key) == path(other) {
        paths_are_distinct(key, other);
    }
}

/// A transaction is in the table exactly as long as it has not terminated: an
/// event that ends it takes it out, any other leaves it in.
pub proof fn ended_transactions_leave(
    table: Map<Seq<Seq<char>>, SlotView>,
    p: Seq<Seq<char>>,
    event: EventView,
)
    requires
        table.contains_key(p),
        table[p].txn.state != TransactionState::Terminated,
    ensures
        table_after(table, p, event).0.contains_key(p) <==> step(
            table[p].flavor,
            table[p].txn,
            event,
        ).0.state != TransactionState::Terminated,
{
    super::machine::end_is_announced_once(table[p].flavor, table[p].txn, event);
    let actions = step(table[p].flavor, table[p].txn, event).1;
    if actions.len() > 0 {
        assert(actions.last() == actions[actions.len() - 1]);
    }
}

/// What is late is dropped: an event for a transaction that left the table
/// causes no command and no change.
pub proof fn late_events_do_nothing(
    table: Map<Seq<Seq<char>>, SlotView>,
    p: Seq<Seq<char>>,
    event: EventView,
)
    requires
        !table.contains_key(p),
    ensures
        table_after(table, p, event) == (table, Seq::<CommandView>::empty()),
{
}

} // verus!
