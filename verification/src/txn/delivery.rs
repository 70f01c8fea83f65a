//! How the actions of a transaction are carried out, and how messages find
//! their transaction.

use vstd::prelude::*;

use super::dialog::{dialog_next, DialogEvent, DialogFsmState};
use super::driver::{
    commands_from, commands_of, from_elsewhere, is_foreign, opens_dialog, opens_dialog_in, path,
    slot_after, status_or_zero, CommandView, SlotView, TuView,
};
use super::machine::step;
use super::matching::{cseq_method_of, sent_by_of};
use super::timers::backoff;
use super::{ActionView, EventView, KeyView, Role};
use crate::text;
use crate::text::laws::{prefixes_end_at_the_first_stop, spaceless, words_peel_off};
use crate::uas::reading::{leads, lemma_leads, lemma_names_are_lower, lines_of, value_behind};

verus! {

// ---------------------------------------------------------------------
// Commands
// ---------------------------------------------------------------------

/// The command that carries out an action that does not end the transaction.
pub open spec fn command_for(a: ActionView) -> CommandView {
    match a {
        ActionView::SendToPeer(b) => CommandView::Send(b),
        ActionView::DeliverResponseToTu { status, bytes } => CommandView::Tell(
            TuView::Response { status, bytes },
        ),
        ActionView::ArmTimer { id, after } => CommandView::Arm { id, after },
        ActionView::CancelTimer(id) => CommandView::Cancel(id),
        ActionView::Terminated => CommandView::Tell(TuView::Terminated),
    }
}

proof fn lemma_commands(key: KeyView, actions: Seq<ActionView>, got: bool, i: int, a: ActionView)
    requires
        0 <= i <= actions.len(),
    ensures
        commands_from(key, actions, got, i).contains(command_for(a)) <==> exists|j: int|
            i <= j < actions.len() && #[trigger] actions[j] == a,
    decreases actions.len() - i,
{
    let all = commands_from(key, actions, got, i);
    if i < actions.len() {
        let next = got || opens_dialog(key, actions[i]);
        let first = commands_of(key, actions[i], next);
        let rest = commands_from(key, actions, next, i + 1);
        lemma_commands(key, actions, next, i + 1, a);
        assert(all == first + rest);
        if all.contains(command_for(a)) {
            let k = choose|k: int| 0 <= k < all.len() && all[k] == command_for(a);
            if k < first.len() {
                assert(first[k] == command_for(a));
                assert(actions[i] == a);
            } else {
                assert(rest[k - first.len()] == command_for(a));
                assert(rest.contains(command_for(a)));
            }
        }
        if exists|j: int| i <= j < actions.len() && #[trigger] actions[j] == a {
            let j = choose|j: int| i <= j < actions.len() && #[trigger] actions[j] == a;
            if j == i {
                let n = first.len() - 1;
                assert(first[n] == command_for(a));
                assert(all[n] == first[n]);
            } else {
                assert(rest.contains(command_for(a)));
                let k = choose|k: int| 0 <= k < rest.len() && rest[k] == command_for(a);
                assert(all[first.len() + k] == rest[k]);
            }
        }
    }
}

/// What a transaction decides is what is done: bytes are sent, the user is told
/// and timers are started and stopped exactly as its actions say.
pub proof fn actions_are_carried_out(
    key: KeyView,
    actions: Seq<ActionView>,
    got: bool,
    a: ActionView,
)
    ensures
        commands_from(key, actions, got, 0).contains(command_for(a)) <==> actions.contains(a),
{
    lemma_commands(key, actions, got, 0, a);
    if actions.contains(a) {
        let j = choose|j: int| 0 <= j < actions.len() && actions[j] == a;
        assert(actions[j] == a);
    }
}

/// The end of a transaction releases its timers and tells its user. A server's
/// is counted; a client INVITE that got a 2xx goes on listening for repetitions
/// of it, and no other does.
pub proof fn ends_are_carried_out(key: KeyView, got: bool)
    ensures
        ({
            let c = commands_of(key, ActionView::Terminated, got);
            let lingers = got && key.role == Role::Client && key.method == "INVITE"@;
            &&& c.len() > 0 && c[0] == (CommandView::Release { lingers })
            &&& c.last() == CommandView::Tell(TuView::Terminated)
            &&& key.role == Role::Server ==> c.len() == 3 && c[1] == CommandView::CountDown
            &&& key.role == Role::Client ==> c.len() == 2
        }),
{
}

// ---------------------------------------------------------------------
// Matching
// ---------------------------------------------------------------------

/// The method of a response is the second word of its first `CSeq`.
pub proof fn methods_are_read(
    bytes: Seq<u8>,
    t: Seq<char>,
    k: int,
    c: int,
    number: Seq<char>,
    method: Seq<char>,
)
    requires
        text::utf8_text(bytes) == Some(t),
        leads(t, k, c, "cseq"@, "cseq"@),
        value_behind(lines_of(t)[k], c) == number + " "@ + method,
        number.len() > 0 && spaceless(number),
        method.len() > 0 && spaceless(method),
    ensures
        cseq_method_of(bytes) == Some(method),
{
    lemma_names_are_lower();
    lemma_leads(t, k, c, "cseq"@, "cseq"@);
    lemma_two_words(number, method, Seq::empty());
    assert(number + " "@ + method + Seq::<char>::empty() =~= number + " "@ + method);
}

proof fn lemma_two_words(a: Seq<char>, b: Seq<char>, rest: Seq<char>)
    requires
        a.len() > 0 && spaceless(a),
        b.len() > 0 && spaceless(b),
        rest.len() > 0 ==> text::is_space(rest[0]),
    ensures
        text::word(a + " "@ + b + rest, 0) == Some(a),
        text::word(a + " "@ + b + rest, 1) == Some(b),
{
    reveal_strlit(" ");
    assert(" "@ =~= seq![' ']);
    let none = Seq::<char>::empty();
    let s = a + " "@ + b + rest;
    let tail = " "@ + b + rest;
    words_peel_off(none, a, tail);
    assert(none + a + tail =~= s);
    words_peel_off(" "@, b, rest);
    assert(text::words(s)[0] == a && text::words(s)[1] == b);
}

/// The sender of a request is what its topmost `Via` names behind the protocol,
/// up to the parameters.
pub proof fn senders_are_read(
    bytes: Seq<u8>,
    t: Seq<char>,
    k: int,
    c: int,
    protocol: Seq<char>,
    host: Seq<char>,
    params: Seq<char>,
)
    requires
        text::utf8_text(bytes) == Some(t),
        leads(t, k, c, "via"@, "v"@),
        value_behind(lines_of(t)[k], c) == protocol + " "@ + (host + params),
        protocol.len() > 0 && spaceless(protocol),
        host.len() > 0 && spaceless(host + params),
        !host.contains(';') && !host.contains(','),
        params.len() > 0 ==> params[0] == ';' || params[0] == ',',
    ensures
        sent_by_of(bytes) == Some(host),
{
    lemma_names_are_lower();
    lemma_leads(t, k, c, "via"@, "v"@);
    let none = Seq::<char>::empty();
    lemma_two_words(protocol, host + params, none);
    assert(protocol + " "@ + (host + params) + none =~= protocol + " "@ + (host + params));
    let stops = seq![';', ','];
    assert(stops[0] == ';' && stops[1] == ',');
    assert(stops.contains(stops[0]) && stops.contains(stops[1]));
    assert forall|i: int| 0 <= i < host.len() implies !stops.contains(#[trigger] host[i]) by {
        assert(host.contains(host[i]));
    }
    prefixes_end_at_the_first_stop(host, params, stops);
}

/// A response is foreign to a transaction exactly when it states another method;
/// a request comes from elsewhere exactly when both senders are known and
/// differ.
pub proof fn strangers_are_told_apart(
    key: KeyView,
    bytes: Seq<u8>,
    table: Map<Seq<Seq<char>>, SlotView>,
    p: Seq<Seq<char>>,
)
    ensures
        is_foreign(key, bytes) <==> (cseq_method_of(bytes) matches Some(m) && m != key.method),
        from_elsewhere(table, p, bytes) <==> table.contains_key(p) && (
        table[p].sent_by matches Some(a) && sent_by_of(bytes) matches Some(b) && a != b),
{
}

/// Branch, method and side make the place of a transaction.
pub proof fn places_are_made_of(key: KeyView)
    ensures
        path(key).len() == 3,
        path(key)[0] == key.branch,
        path(key)[1] == key.method,
        path(key)[2] == (if key.role == Role::Client {
            "client"@
        } else {
            "server"@
        }),
{
}

// ---------------------------------------------------------------------
// Waiting
// ---------------------------------------------------------------------

/// Retries wait twice as long each time, from T1 on, up to the cap.
pub proof fn retries_double(n: nat, max: nat)
    ensures
        max >= 500 ==> backoff(0, max) == 500,
        2 * backoff(n, max) <= max ==> backoff(n + 1, max) == 2 * backoff(n, max),
        2 * backoff(n, max) > max ==> backoff(n + 1, max) == max,
{
    vstd::arithmetic::power2::lemma_pow2_unfold(n + 1);
    vstd::arithmetic::power2::lemma2_to64();
}

// ---------------------------------------------------------------------
// Dialogs
// ---------------------------------------------------------------------

/// An ACK confirms an early dialog and is refused in any other; a cancellation
/// ends an early one and is refused in any other; nothing is legal once it is
/// over.
pub proof fn dialogs_take_their_course(event: DialogEvent)
    ensures
        dialog_next(DialogFsmState::Early, DialogEvent::AckReceived) == Some(
            DialogFsmState::Confirmed,
        ),
        dialog_next(DialogFsmState::Confirmed, DialogEvent::AckReceived) is None,
        dialog_next(DialogFsmState::Early, DialogEvent::Cancelled) == Some(
            DialogFsmState::Terminated,
        ),
        dialog_next(DialogFsmState::Confirmed, DialogEvent::Cancelled) is None,
        dialog_next(DialogFsmState::Terminated, event) is None,
{
}

/// The status of a response is the one that its first line states, or 0.
pub proof fn unreadable_statuses_are_zero(bytes: Seq<u8>)
    ensures
        crate::uas::parse::status_of(bytes) matches Some(n) ==> n <= u16::MAX ==> status_or_zero(
            bytes,
        ) == n,
        crate::uas::parse::status_of(bytes) is None ==> status_or_zero(bytes) == 0,
{
}

/// A client INVITE remembers that it handed a 2xx over, and nothing else is
/// remembered as such.
pub proof fn successes_are_remembered(
    slot: SlotView,
    event: EventView,
    status: u16,
    bytes: Seq<u8>,
)
    ensures
        ({
            let actions = step(slot.flavor, slot.txn, event).1;
            let after = slot_after(slot, event);
            &&& slot.got_2xx ==> after.got_2xx
            &&& slot.txn.key.role == Role::Client && slot.txn.key.method == "INVITE"@ && 200
                <= status < 300 && actions.contains(
                ActionView::DeliverResponseToTu { status, bytes },
            ) ==> after.got_2xx
            &&& after.got_2xx && !slot.got_2xx ==> slot.txn.key.role == Role::Client
                && slot.txn.key.method == "INVITE"@ && exists|i: int|
                0 <= i < actions.len() && (#[trigger] actions[i] matches
                    ActionView::DeliverResponseToTu { status: s, .. } && 200 <= s < 300)
            &&& after.flavor == slot.flavor && after.sent_by == slot.sent_by
            &&& after.txn == step(slot.flavor, slot.txn, event).0
        }),
{
    let actions = step(slot.flavor, slot.txn, event).1;
    let told = ActionView::DeliverResponseToTu { status, bytes };
    if slot.txn.key.role == Role::Client && slot.txn.key.method == "INVITE"@ && 200 <= status < 300
        && actions.contains(told) {
        let i = choose|i: int| 0 <= i < actions.len() && actions[i] == told;
        assert(opens_dialog(slot.txn.key, actions[i]));
    }
    if opens_dialog_in(slot.txn.key, actions) {
        let i = choose|i: int|
            0 <= i < actions.len() && opens_dialog(slot.txn.key, #[trigger] actions[i]);
        assert(actions[i] is DeliverResponseToTu);
    }
}

} // verus!
