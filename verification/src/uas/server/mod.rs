//! The answering side of the engine.
//!
//! Each method takes one event (a request, a timer, the outcome of something
//! that was asked for), changes the tables, and appends to a list of commands
//! what is to be done outside, in order. Media, the network, timers and stores
//! lie outside. Where a decision needs one of them, the method that takes the
//! request says what to ask for, and another method takes the answer.

use vstd::prelude::*;

use super::compose::{tag_text, TagSource};
use super::offer::{BridgeLeg, BridgeLegView, LegMedia, LegView};
use super::session_timer::SessionTimerConfig;
use crate::record::{
    addr_opt, dialog_path, place_of, DialogKey, DialogRecord, MediaAddr, RecordView,
};
use crate::table::{copy_key, key_view, Table};
use crate::text;
use crate::transport::{is_local_plan, local_ip_plan, LocalIpPlan};
use crate::txn::driver::{commands_view, CommandView, DriverCommand, SlotView, TransactionDriver};
use crate::txn::timers::{Millis, TIMEOUT_64T1};
use crate::txn::{KeyView, Role, TransactionKey};

pub mod answers;
pub mod attach;
pub mod calls;
pub mod dispatch;
pub mod ingress;
pub mod invite;
pub mod laws;
pub mod register;
pub mod respond;
pub mod teardown;
pub mod update;

verus! {

// ---------------------------------------------------------------------
// What is to be done outside
// ---------------------------------------------------------------------

/// A call's record for billing.
#[derive(Debug)]
pub struct CallDetailRecord {
    /// Call-ID.
    pub call_id: String,
    /// Who called.
    pub from_uri: String,
    /// Who was called.
    pub to_uri: String,
    /// Start, in seconds since the Unix epoch.
    pub started_at_unix: i64,
    /// End, in seconds since the Unix epoch.
    pub ended_at_unix: i64,
    /// Duration in seconds.
    pub duration_secs: i64,
    /// How it ended.
    pub result: String,
}

/// Model of a [`CallDetailRecord`].
#[verifier::ext_equal]
pub struct CdrView {
    pub call_id: Seq<char>,
    pub from_uri: Seq<char>,
    pub to_uri: Seq<char>,
    pub started_at_unix: i64,
    pub ended_at_unix: i64,
    pub duration_secs: i64,
    pub result: Seq<char>,
}

impl View for CallDetailRecord {
    type V = CdrView;

    open spec fn view(&self) -> CdrView {
        CdrView {
            call_id: self.call_id@,
            from_uri: self.from_uri@,
            to_uri: self.to_uri@,
            started_at_unix: self.started_at_unix,
            ended_at_unix: self.ended_at_unix,
            duration_secs: self.duration_secs,
            result: self.result@,
        }
    }
}

/// Something to be done outside.
#[derive(Debug)]
pub enum UasCommand {
    /// Write bytes to a peer.
    Send {
        /// What.
        bytes: Vec<u8>,
        /// Where, `host:port`.
        peer: String,
    },
    /// A transaction with this peer began.
    Open {
        /// Which.
        key: TransactionKey,
        /// Its peer, `host:port`.
        peer: String,
    },
    /// Carry out the commands of a transaction.
    Txn {
        /// Which.
        key: TransactionKey,
        /// Its commands.
        commands: Vec<DriverCommand>,
    },
    /// Repeat a 2xx until it is acknowledged, in place of an earlier one of
    /// the dialog.
    Retransmit {
        /// Whose.
        dialog: DialogKey,
        /// The 2xx.
        bytes: Vec<u8>,
        /// Where, `host:port`.
        peer: String,
    },
    /// Stop repeating the dialog's 2xx.
    StopRetransmit(DialogKey),
    /// Start the session timer, in place of an earlier one.
    ArmSession {
        /// Whose.
        dialog: DialogKey,
        /// Which arming it is.
        generation: u64,
        /// When it fires, in nanoseconds.
        after: u64,
    },
    /// Stop the session timer.
    CancelSession(DialogKey),
    /// Start the guard on the call's duration, in place of an earlier one.
    ArmGuard {
        /// Whose.
        dialog: DialogKey,
        /// When it fires.
        after: Millis,
    },
    /// Stop the guard on the call's duration.
    CancelGuard(DialogKey),
    /// Release a media endpoint.
    ReleaseEndpoint(u64),
    /// Release a media bridge.
    ReleaseBridge(u64),
    /// Stop a media session.
    StopSession(u64),
    /// Replicate a dialog's record.
    Upsert(DialogRecord),
    /// Replicate that a dialog is gone.
    Forget(DialogKey),
    /// Send a BYE inside the dialog, on this branch.
    Bye {
        /// The dialog.
        record: DialogRecord,
        /// `Via` branch.
        branch: String,
    },
    /// Announce a new dialog.
    Created {
        /// Call-ID.
        call_id: String,
        /// Media endpoint.
        endpoint: Option<u64>,
        /// Where the peer receives RTP.
        remote_rtp: Option<MediaAddr>,
    },
    /// Announce the end of a dialog.
    Ended {
        /// Call-ID.
        call_id: String,
    },
    /// Store a call's record.
    Cdr(CallDetailRecord),
}

/// Model of a [`UasCommand`].
#[verifier::ext_equal]
pub enum UasCommandView {
    Send { bytes: Seq<u8>, peer: Seq<char> },
    Open { key: KeyView, peer: Seq<char> },
    Txn { key: KeyView, commands: Seq<CommandView> },
    Retransmit { dialog: Seq<Seq<char>>, bytes: Seq<u8>, peer: Seq<char> },
    StopRetransmit(Seq<Seq<char>>),
    ArmSession { dialog: Seq<Seq<char>>, generation: u64, after: u64 },
    CancelSession(Seq<Seq<char>>),
    ArmGuard { dialog: Seq<Seq<char>>, after: Millis },
    CancelGuard(Seq<Seq<char>>),
    ReleaseEndpoint(u64),
    ReleaseBridge(u64),
    StopSession(u64),
    Upsert(RecordView),
    Forget(Seq<Seq<char>>),
    Bye { record: RecordView, branch: Seq<char> },
    Created { call_id: Seq<char>, endpoint: Option<u64>, remote_rtp: Option<(Seq<char>, u16)> },
    Ended { call_id: Seq<char> },
    Cdr(CdrView),
}

impl View for UasCommand {
    type V = UasCommandView;

    open spec fn view(&self) -> UasCommandView {
        match *self {
            UasCommand::Send { bytes, peer } => UasCommandView::Send {
                bytes: bytes@,
                peer: peer@,
            },
            UasCommand::Open { key, peer } => UasCommandView::Open { key: key@, peer: peer@ },
            UasCommand::Txn { key, commands } => UasCommandView::Txn {
                key: key@,
                commands: commands_view(commands@),
            },
            UasCommand::Retransmit { dialog, bytes, peer } => UasCommandView::Retransmit {
                dialog: dialog_path(dialog),
                bytes: bytes@,
                peer: peer@,
            },
            UasCommand::StopRetransmit(d) => UasCommandView::StopRetransmit(dialog_path(d)),
            UasCommand::ArmSession { dialog, generation, after } => UasCommandView::ArmSession {
                dialog: dialog_path(dialog),
                generation,
                after,
            },
            UasCommand::CancelSession(d) => UasCommandView::CancelSession(dialog_path(d)),
            UasCommand::ArmGuard { dialog, after } => UasCommandView::ArmGuard {
                dialog: dialog_path(dialog),
                after,
            },
            UasCommand::CancelGuard(d) => UasCommandView::CancelGuard(dialog_path(d)),
            UasCommand::ReleaseEndpoint(e) => UasCommandView::ReleaseEndpoint(e),
            UasCommand::ReleaseBridge(b) => UasCommandView::ReleaseBridge(b),
            UasCommand::StopSession(s) => UasCommandView::StopSession(s),
            UasCommand::Upsert(r) => UasCommandView::Upsert(r@),
            UasCommand::Forget(d) => UasCommandView::Forget(dialog_path(d)),
            UasCommand::Bye { record, branch } => UasCommandView::Bye {
                record: record@,
                branch: branch@,
            },
            UasCommand::Created { call_id, endpoint, remote_rtp } => UasCommandView::Created {
                call_id: call_id@,
                endpoint,
                remote_rtp: addr_opt(remote_rtp),
            },
            UasCommand::Ended { call_id } => UasCommandView::Ended { call_id: call_id@ },
            UasCommand::Cdr(c) => UasCommandView::Cdr(c@),
        }
    }
}

/// The models of a list of commands.
pub open spec fn outputs(v: Seq<UasCommand>) -> Seq<UasCommandView> {
    Seq::new(v.len(), |i: int| v[i]@)
}

/// Appends a command.
fn emit(out: &mut Vec<UasCommand>, c: UasCommand)
    ensures
        outputs(final(out)@) == outputs(old(out)@) + seq![c@],
{
    out.push(c);
    assert(outputs(out@) =~= outputs(old(out)@) + seq![c@]);
}

// ---------------------------------------------------------------------
// State
// ---------------------------------------------------------------------

/// The first leg of a rendezvous, waiting for the second.
#[derive(Debug)]
pub struct PendingLeg {
    /// Its dialog.
    pub dialog: DialogKey,
    /// The leg.
    pub leg: BridgeLeg,
    /// Its audio codec.
    pub audio_codec: Option<String>,
}

/// Model of a [`PendingLeg`].
#[verifier::ext_equal]
pub struct PendingView {
    pub dialog: Seq<Seq<char>>,
    pub leg: BridgeLegView,
    pub audio_codec: Option<Seq<char>>,
}

impl View for PendingLeg {
    type V = PendingView;

    open spec fn view(&self) -> PendingView {
        PendingView {
            dialog: dialog_path(self.dialog),
            leg: self.leg@,
            audio_codec: text::text_opt(self.audio_codec),
        }
    }
}

/// What is known of a call's record while it lasts.
#[derive(Debug)]
pub struct CdrInProgress {
    /// Call-ID.
    pub call_id: String,
    /// Who called.
    pub from_uri: String,
    /// Who was called.
    pub to_uri: String,
    /// Start, in seconds since the Unix epoch.
    pub started_at_unix: i64,
}

/// Model of a [`CdrInProgress`].
#[verifier::ext_equal]
pub struct CdrStartView {
    pub call_id: Seq<char>,
    pub from_uri: Seq<char>,
    pub to_uri: Seq<char>,
    pub started_at_unix: i64,
}

impl View for CdrInProgress {
    type V = CdrStartView;

    open spec fn view(&self) -> CdrStartView {
        CdrStartView {
            call_id: self.call_id@,
            from_uri: self.from_uri@,
            to_uri: self.to_uri@,
            started_at_unix: self.started_at_unix,
        }
    }
}

/// What the server is set up with.
#[derive(Debug)]
pub struct UasSettings {
    /// `Contact` of the engine.
    pub contact: String,
    /// `Via` token of the transport.
    pub transport: String,
    /// Process id; part of every tag.
    pub pid: u32,
    /// Session-timer policy.
    pub session_timer: SessionTimerConfig,
    /// Longest duration of a call.
    pub max_call_duration: Option<Millis>,
    /// How long the ACK for a 2xx is waited for.
    pub invite_2xx_timeout: Millis,
    /// New calls are refused.
    pub draining: bool,
    /// Calls are recorded.
    pub records_calls: bool,
    /// Prefix of the names of conference rooms.
    pub room_prefix: Option<String>,
    /// There is a mixer for conference rooms.
    pub has_mixer: bool,
    /// There is a transcoder for pairs of different codecs.
    pub has_transcoder: bool,
    /// There is a rendezvous with browser legs.
    pub has_webrtc: bool,
    /// Address to publish in SDP, in place of the bound one.
    pub sdp_advertise_ip: Option<String>,
}

/// Model of [`UasSettings`].
#[verifier::ext_equal]
pub struct SettingsView {
    pub contact: Seq<char>,
    pub transport: Seq<char>,
    pub pid: u32,
    pub session_timer: SessionTimerConfig,
    pub max_call_duration: Option<Millis>,
    pub invite_2xx_timeout: Millis,
    pub draining: bool,
    pub records_calls: bool,
    pub room_prefix: Option<Seq<char>>,
    pub has_mixer: bool,
    pub has_transcoder: bool,
    pub has_webrtc: bool,
    pub sdp_advertise_ip: Option<Seq<char>>,
}

impl View for UasSettings {
    type V = SettingsView;

    open spec fn view(&self) -> SettingsView {
        SettingsView {
            contact: self.contact@,
            transport: self.transport@,
            pid: self.pid,
            session_timer: self.session_timer,
            max_call_duration: self.max_call_duration,
            invite_2xx_timeout: self.invite_2xx_timeout,
            draining: self.draining,
            records_calls: self.records_calls,
            room_prefix: text::text_opt(self.room_prefix),
            has_mixer: self.has_mixer,
            has_transcoder: self.has_transcoder,
            has_webrtc: self.has_webrtc,
            sdp_advertise_ip: text::text_opt(self.sdp_advertise_ip),
        }
    }
}

/// The moment at which an event is handled.
#[derive(Copy, Clone, Debug)]
pub struct Moment {
    /// Wall clock in nanoseconds.
    pub nanos: u64,
    /// Wall clock in seconds since the Unix epoch.
    pub unix: i64,
}

/// Model of a [`UasServer`]. Dialogs go by Call-ID, local tag and remote tag.
#[verifier::ext_equal]
pub struct UasView {
    /// Settings.
    pub settings: SettingsView,
    /// Live dialogs.
    pub dialogs: Map<Seq<Seq<char>>, RecordView>,
    /// Media of each dialog.
    pub legs: Map<Seq<Seq<char>>, LegView>,
    /// First legs that wait, by rendezvous name.
    pub pending: Map<Seq<Seq<char>>, PendingView>,
    /// Bridge of each bridged dialog.
    pub bridges: Map<Seq<Seq<char>>, u64>,
    /// Media session of each dialog that has one.
    pub sessions: Map<Seq<Seq<char>>, u64>,
    /// Calls that are being recorded.
    pub cdrs: Map<Seq<Seq<char>>, CdrStartView>,
    /// Arming of each session timer.
    pub timers: Map<Seq<Seq<char>>, u64>,
    /// Cancelled INVITEs by branch, each with the tag of the CANCEL's answer.
    pub cancelled: Map<Seq<Seq<char>>, Seq<char>>,
    /// Number of tags that were handed out.
    pub issued: u64,
    /// Live transactions.
    pub slots: Map<Seq<Seq<char>>, SlotView>,
    /// The transport delivers every message.
    pub reliable: bool,
}

/// Answers calls.
pub struct UasServer {
    settings: UasSettings,
    driver: TransactionDriver,
    dialogs: Table<DialogRecord>,
    legs: Table<LegMedia>,
    pending: Table<PendingLeg>,
    bridges: Table<u64>,
    sessions: Table<u64>,
    cdrs: Table<CdrInProgress>,
    timers: Table<u64>,
    cancelled: Table<String>,
    tags: TagSource,
}

impl View for UasServer {
    type V = UasView;

    closed spec fn view(&self) -> UasView {
        UasView {
            settings: self.settings@,
            dialogs: self.dialogs.models(),
            legs: self.legs.models(),
            pending: self.pending.models(),
            bridges: self.bridges.models(),
            sessions: self.sessions.models(),
            cdrs: self.cdrs.models(),
            timers: self.timers.models(),
            cancelled: self.cancelled.models(),
            issued: self.tags@,
            slots: self.driver.slots(),
            reliable: self.driver.reliable(),
        }
    }
}

/// A server without dialogs.
pub open spec fn idle(settings: SettingsView, reliable: bool) -> UasView {
    UasView {
        settings,
        dialogs: Map::empty(),
        legs: Map::empty(),
        pending: Map::empty(),
        bridges: Map::empty(),
        sessions: Map::empty(),
        cdrs: Map::empty(),
        timers: Map::empty(),
        cancelled: Map::empty(),
        issued: 0,
        slots: Map::empty(),
        reliable,
    }
}

/// The settings of a server at `addr`, before anything is configured.
pub open spec fn default_settings(addr: Seq<char>, transport: Seq<char>, pid: u32) -> SettingsView {
    SettingsView {
        contact: crate::uac::contact_of(addr),
        transport,
        pid,
        session_timer: SessionTimerConfig {
            enabled: true,
            default_expires: 1_800_000,
            min_se: 90_000,
        },
        max_call_duration: None,
        invite_2xx_timeout: TIMEOUT_64T1,
        draining: false,
        records_calls: false,
        room_prefix: None,
        has_mixer: false,
        has_transcoder: false,
        has_webrtc: false,
        sdp_advertise_ip: None,
    }
}

/// The server after it handed out a tag.
pub open spec fn tagged(s: UasView) -> UasView {
    UasView { issued: s.issued.wrapping_add(1), ..s }
}

/// The tag that the server hands out next.
pub open spec fn tag_at(s: UasView, now: Moment) -> Seq<char> {
    tag_text(s.issued, now.nanos, s.settings.pid)
}

impl UasServer {
    /// The transaction table is in order, and the dialogs are finite in
    /// number.
    pub closed spec fn wf(&self) -> bool {
        &&& self.driver.wf()
        &&& self.dialogs.models().dom().finite()
    }

    /// A server at `addr` (`host:port`) on a transport with the `Via` token
    /// `transport`, in process `pid`.
    pub fn new(addr: &str, transport: &str, reliable: bool, pid: u32) -> (r: Self)
        ensures
            r.wf(),
            r@ == idle(default_settings(addr@, transport@, pid), reliable),
    {
        let r = UasServer {
            settings: UasSettings {
                contact: crate::uac::contact_string(addr),
                transport: transport.to_owned(),
                pid,
                session_timer: SessionTimerConfig::default(),
                max_call_duration: None,
                invite_2xx_timeout: TIMEOUT_64T1,
                draining: false,
                records_calls: false,
                room_prefix: None,
                has_mixer: false,
                has_transcoder: false,
                has_webrtc: false,
                sdp_advertise_ip: None,
            },
            driver: TransactionDriver::new(reliable),
            dialogs: Table::empty(),
            legs: Table::empty(),
            pending: Table::empty(),
            bridges: Table::empty(),
            sessions: Table::empty(),
            cdrs: Table::empty(),
            timers: Table::empty(),
            cancelled: Table::empty(),
            tags: TagSource::new(),
        };
        assert(r.driver.slots() =~= Map::<Seq<Seq<char>>, SlotView>::empty());
        r
    }

    /// The settings.
    pub fn settings(&self) -> (r: &UasSettings)
        ensures
            r@ == self@.settings,
    {
        &self.settings
    }

    /// With another session-timer policy.
    #[must_use]
    pub fn with_session_timer(self, cfg: SessionTimerConfig) -> (r: Self)
        requires
            self.wf(),
        ensures
            r.wf(),
            r@ == (UasView {
                settings: SettingsView { session_timer: cfg, ..self@.settings },
                ..self@
            }),
    {
        let mut this = self;
        this.settings.session_timer = cfg;
        this
    }

    /// With a limit on the duration of calls, or without one.
    #[must_use]
    pub fn with_max_call_duration(self, max: Option<Millis>) -> (r: Self)
        requires
            self.wf(),
        ensures
            r.wf(),
            r@ == (UasView {
                settings: SettingsView { max_call_duration: max, ..self@.settings },
                ..self@
            }),
    {
        let mut this = self;
        this.settings.max_call_duration = max;
        this
    }

    /// With another time limit for the ACK to a 2xx.
    #[must_use]
    pub fn with_invite_2xx_timeout(self, budget: Millis) -> (r: Self)
        requires
            self.wf(),
        ensures
            r.wf(),
            r@ == (UasView {
                settings: SettingsView { invite_2xx_timeout: budget, ..self@.settings },
                ..self@
            }),
    {
        let mut this = self;
        this.settings.invite_2xx_timeout = budget;
        this
    }

    /// With call records.
    #[must_use]
    pub fn with_cdr_store(self) -> (r: Self)
        requires
            self.wf(),
        ensures
            r.wf(),
            r@ == (UasView {
                settings: SettingsView { records_calls: true, ..self@.settings },
                ..self@
            }),
    {
        let mut this = self;
        this.settings.records_calls = true;
        this
    }

    /// With a transcoder for pairs of different codecs.
    #[must_use]
    pub fn with_transcode_orchestrator(self) -> (r: Self)
        requires
            self.wf(),
        ensures
            r.wf(),
            r@ == (UasView {
                settings: SettingsView { has_transcoder: true, ..self@.settings },
                ..self@
            }),
    {
        let mut this = self;
        this.settings.has_transcoder = true;
        this
    }

    /// With a mixer for conference rooms.
    #[must_use]
    pub fn with_conference_orchestrator(self) -> (r: Self)
        requires
            self.wf(),
        ensures
            r.wf(),
            r@ == (UasView {
                settings: SettingsView { has_mixer: true, ..self@.settings },
                ..self@
            }),
    {
        let mut this = self;
        this.settings.has_mixer = true;
        this
    }

    /// With conference rooms: those whose name begins with `prefix`.
    #[must_use]
    pub fn with_conference_rooms(self, prefix: String) -> (r: Self)
        requires
            self.wf(),
        ensures
            r.wf(),
            r@ == (UasView {
                settings: SettingsView { room_prefix: Some(prefix@), ..self@.settings },
                ..self@
            }),
    {
        let mut this = self;
        this.settings.room_prefix = Some(prefix);
        this
    }

    /// With a rendezvous with browser legs.
    #[must_use]
    pub fn with_webrtc_rendezvous(self) -> (r: Self)
        requires
            self.wf(),
        ensures
            r.wf(),
            r@ == (UasView {
                settings: SettingsView { has_webrtc: true, ..self@.settings },
                ..self@
            }),
    {
        let mut this = self;
        this.settings.has_webrtc = true;
        this
    }

    /// With another address to publish in SDP than the bound one.
    #[must_use]
    pub fn with_sdp_advertise_ip(self, ip: String) -> (r: Self)
        requires
            self.wf(),
        ensures
            r.wf(),
            r@ == (UasView {
                settings: SettingsView { sdp_advertise_ip: Some(ip@), ..self@.settings },
                ..self@
            }),
    {
        let mut this = self;
        this.settings.sdp_advertise_ip = Some(ip);
        this
    }

    /// How the address to publish to a peer is found: the configured one, else
    /// the bound one unless that is a wildcard. See [`local_ip_plan`].
    pub fn effective_local_ip(&self, bind_ip: &str, bind_is_wildcard: bool, peer_is_v6: bool) -> (r:
        LocalIpPlan)
        ensures
            self@.settings.sdp_advertise_ip matches Some(ip) ==> (r matches LocalIpPlan::Bound(b)
                && b@ == ip),
            self@.settings.sdp_advertise_ip is None ==> is_local_plan(
                bind_ip@,
                bind_is_wildcard,
                peer_is_v6,
                r,
            ),
    {
        match &self.settings.sdp_advertise_ip {
            Some(ip) => LocalIpPlan::Bound(ip.clone()),
            None => local_ip_plan(bind_ip, bind_is_wildcard, peer_is_v6),
        }
    }

    /// Starts or stops refusing new calls.
    pub fn set_draining(&mut self, draining: bool)
        requires
            old(self).wf(),
        ensures
            final(self).wf(),
            final(self)@ == (UasView {
                settings: SettingsView { draining, ..old(self)@.settings },
                ..old(self)@
            }),
    {
        self.settings.draining = draining;
    }

    /// Takes over dialogs that an earlier run left. Returns how many.
    pub fn restore_dialogs(&mut self, records: Vec<DialogRecord>) -> (r: usize)
        requires
            old(self).wf(),
        ensures
            final(self).wf(),
            r == records@.len(),
            final(self)@ == (UasView {
                dialogs: restored(old(self)@.dialogs, record_views(records@)),
                ..old(self)@
            }),
    {
        let ghost all = record_views(records@);
        let n: usize = records.len();
        assert(all.take(0) =~= seq![]);
        for rec in it: records
            invariant
                it.seq() == records@,
                all == record_views(records@),
                self.wf(),
                self@ == (UasView {
                    dialogs: restored(old(self)@.dialogs, all.take(it.index())),
                    ..old(self)@
                }),
        {
            let k = rec.key();
            proof {
                assert(rec@ == all[it.index()]);
                assert(all.take(it.index() + 1).drop_last() =~= all.take(it.index()));
            }
            self.dialogs.put(place_of(&k), rec);
        }
        assert(all.take(all.len() as int) =~= all);
        n
    }

    /// `true` while the dialog is live.
    pub fn has_dialog(&self, dialog: &DialogKey) -> (r: bool)
        ensures
            r == self@.dialogs.contains_key(dialog_path(*dialog)),
    {
        self.dialogs.has(&place_of(dialog))
    }

    /// A copy of a live dialog's record.
    pub fn dialog(&mut self, dialog: &DialogKey) -> (r: Option<DialogRecord>)
        requires
            old(self).wf(),
        ensures
            final(self).wf(),
            final(self)@ == old(self)@,
            r is Some <==> old(self)@.dialogs.contains_key(dialog_path(*dialog)),
            r matches Some(rec) ==> rec@ == old(self)@.dialogs[dialog_path(*dialog)],
    {
        match self.dialogs.take(&place_of(dialog)) {
            Some(rec) => {
                let copy = rec.duplicate();
                self.dialogs.put(place_of(dialog), rec);
                Some(copy)
            },
            None => None,
        }
    }

    /// Copies of the records of all live dialogs, in an order that is left
    /// open.
    pub fn records(&mut self) -> (r: Vec<DialogRecord>)
        requires
            old(self).wf(),
        ensures
            final(self).wf(),
            final(self)@ == old(self)@,
            is_listing(old(self)@.dialogs, record_views(r@)),
    {
        let keys = self.dialogs.keys();
        let ghost table = self.dialogs@;
        let mut out: Vec<DialogRecord> = Vec::new();
        let mut i: usize = 0;
        while i < keys.len()
            invariant
                i <= keys@.len(),
                self.wf(),
                self@ == old(self)@,
                forall|j: int| #![trigger keys@[j]]
                    0 <= j < keys@.len() ==> self@.dialogs.contains_key(key_view(keys@[j])),
                out@.len() == i,
                forall|j: int| #![trigger keys@[j]]
                    0 <= j < i ==> out@[j]@ == self@.dialogs[key_view(keys@[j])],
            decreases keys.len() - i,
        {
            match self.dialogs.take(&keys[i]) {
                Some(rec) => {
                    out.push(rec.duplicate());
                    self.dialogs.put(copy_key(&keys[i]), rec);
                },
                None => {},
            }
            i = i + 1;
        }
        proof {
            let views = record_views(out@);
            let all = old(self)@.dialogs;
            assert(all.dom() =~= table.dom());
            assert forall|j: int| 0 <= j < views.len() implies is_record(
                all,
                #[trigger] views[j],
            ) by {
                assert(all.contains_key(key_view(keys@[j])));
            }
            assert forall|p: Seq<Seq<char>>| #[trigger] all.contains_key(p) implies exists|j: int|
                0 <= j < views.len() && #[trigger] views[j] == all[p] by {
                assert(table.contains_key(p));
                let j = choose|j: int| 0 <= j < keys@.len() && key_view(#[trigger] keys@[j]) == p;
                assert(views[j] == all[p]);
            }
        }
        out
    }

    /// Number of live dialogs.
    pub fn dialog_count(&self) -> (r: usize)
        requires
            self.wf(),
        ensures
            self@.dialogs.dom().finite(),
            r == self@.dialogs.dom().len(),
    {
        assert(self.dialogs.models().dom() =~= self.dialogs@.dom());
        self.dialogs.len()
    }

    /// Hands out a tag.
    fn next_tag(&mut self, now: &Moment) -> (r: String)
        requires
            old(self).wf(),
        ensures
            final(self).wf(),
            r@ == tag_at(old(self)@, *now),
            final(self)@ == tagged(old(self)@),
    {
        let pid: u32 = self.settings.pid;
        self.tags.next_tag(now.nanos, pid)
    }
}

/// The models of a list of records.
pub open spec fn record_views(v: Seq<DialogRecord>) -> Seq<RecordView> {
    Seq::new(v.len(), |i: int| v[i]@)
}

/// The dialogs after `records` were taken over; of two with the same identity
/// the later one stays.
pub open spec fn restored(
    dialogs: Map<Seq<Seq<char>>, RecordView>,
    records: Seq<RecordView>,
) -> Map<Seq<Seq<char>>, RecordView>
    decreases records.len(),
{
    if records.len() == 0 {
        dialogs
    } else {
        restored(dialogs, records.drop_last()).insert(records.last().path(), records.last())
    }
}

/// `record` is that of one of the dialogs.
pub open spec fn is_record(
    dialogs: Map<Seq<Seq<char>>, RecordView>,
    record: RecordView,
) -> bool {
    exists|p: Seq<Seq<char>>| #[trigger] dialogs.contains_key(p) && dialogs[p] == record
}

/// `records` lists the dialogs: each record is one of theirs, none is left out,
/// and there are as many records as dialogs.
pub open spec fn is_listing(
    dialogs: Map<Seq<Seq<char>>, RecordView>,
    records: Seq<RecordView>,
) -> bool {
    &&& dialogs.dom().finite()
    &&& records.len() == dialogs.dom().len()
    &&& forall|j: int| 0 <= j < records.len() ==> is_record(dialogs, #[trigger] records[j])
    &&& forall|p: Seq<Seq<char>>| #[trigger]
        dialogs.contains_key(p) ==> exists|j: int|
            0 <= j < records.len() && #[trigger] records[j] == dialogs[p]
}

/// Every dialog stands under its own identity.
pub open spec fn keyed(s: UasView) -> bool {
    forall|p: Seq<Seq<char>>| #[trigger]
        s.dialogs.contains_key(p) ==> s.dialogs[p].path() == p
}

/// A dialog that was taken over is there afterwards, unless a later one has
/// the same identity; what was there before and was not taken over stays.
pub proof fn restored_dialogs_are_there(
    dialogs: Map<Seq<Seq<char>>, RecordView>,
    records: Seq<RecordView>,
    i: int,
    p: Seq<Seq<char>>,
)
    requires
        0 <= i < records.len(),
        forall|j: int| i < j < records.len() ==> (#[trigger] records[j]).path() != records[i].path(),
    ensures
        restored(dialogs, records).contains_key(records[i].path()),
        restored(dialogs, records)[records[i].path()] == records[i],
        (forall|j: int| 0 <= j < records.len() ==> (#[trigger] records[j]).path() != p)
            && dialogs.contains_key(p) ==> restored(dialogs, records).contains_key(p) && restored(
            dialogs,
            records,
        )[p] == dialogs[p],
    decreases records.len(),
{
    let front = records.drop_last();
    if i < front.len() {
        assert(front[i] == records[i]);
        assert(forall|j: int| i < j < front.len() ==> (#[trigger] front[j]) == records[j]);
        assert(forall|j: int| 0 <= j < front.len() ==> (#[trigger] front[j]) == records[j]);
        assert(records.last() == records[records.len() - 1]);
        restored_dialogs_are_there(dialogs, front, i, p);
    } else {
        lemma_restored_keeps(dialogs, records, p);
    }
}

proof fn lemma_restored_keeps(
    dialogs: Map<Seq<Seq<char>>, RecordView>,
    records: Seq<RecordView>,
    p: Seq<Seq<char>>,
)
    ensures
        (forall|j: int| 0 <= j < records.len() ==> (#[trigger] records[j]).path() != p)
            && dialogs.contains_key(p) ==> restored(dialogs, records).contains_key(p) && restored(
            dialogs,
            records,
        )[p] == dialogs[p],
    decreases records.len(),
{
    if records.len() > 0 {
        let front = records.drop_last();
        assert(forall|j: int| 0 <= j < front.len() ==> (#[trigger] front[j]) == records[j]);
        assert(records.last() == records[records.len() - 1]);
        lemma_restored_keeps(dialogs, front, p);
    }
}

/// What was taken over last under some identity is what stands there.
proof fn lemma_restored_value(
    dialogs: Map<Seq<Seq<char>>, RecordView>,
    records: Seq<RecordView>,
    p: Seq<Seq<char>>,
)
    ensures
        restored(dialogs, records).contains_key(p) <==> dialogs.contains_key(p) || exists|j: int|
            0 <= j < records.len() && (#[trigger] records[j]).path() == p,
        (exists|j: int| 0 <= j < records.len() && (#[trigger] records[j]).path() == p) ==> exists|
            j: int,
        |
            0 <= j < records.len() && (#[trigger] records[j]).path() == p && restored(
                dialogs,
                records,
            )[p] == records[j],
    decreases records.len(),
{
    if records.len() > 0 {
        let front = records.drop_last();
        let last = records.len() - 1;
        assert(forall|j: int| 0 <= j < front.len() ==> (#[trigger] front[j]) == records[j]);
        assert(records.last() == records[last]);
        lemma_restored_value(dialogs, front, p);
        if records[last].path() != p {
            if exists|j: int| 0 <= j < records.len() && (#[trigger] records[j]).path() == p {
                let j = choose|j: int|
                    0 <= j < records.len() && (#[trigger] records[j]).path() == p;
                assert(front[j].path() == p);
                let k = choose|k: int|
                    0 <= k < front.len() && (#[trigger] front[k]).path() == p && restored(
                        dialogs,
                        front,
                    )[p] == front[k];
                assert(records[k].path() == p);
            }
        }
    }
}

/// Taking over a list of all dialogs restores them, each under its identity.
pub proof fn listed_dialogs_are_restored(s: UasView, records: Seq<RecordView>)
    requires
        keyed(s),
        is_listing(s.dialogs, records),
    ensures
        restored(Map::empty(), records) == s.dialogs,
{
    let back = restored(Map::<Seq<Seq<char>>, RecordView>::empty(), records);
    assert forall|p: Seq<Seq<char>>| #[trigger]
        back.contains_key(p) == s.dialogs.contains_key(p) && (s.dialogs.contains_key(p) ==> back[p]
            == s.dialogs[p]) by {
        lemma_restored_value(Map::empty(), records, p);
        if s.dialogs.contains_key(p) {
            let j = choose|j: int| 0 <= j < records.len() && #[trigger] records[j] == s.dialogs[p];
            assert(records[j].path() == p);
        }
        if exists|j: int| 0 <= j < records.len() && (#[trigger] records[j]).path() == p {
            let k = choose|k: int|
                0 <= k < records.len() && (#[trigger] records[k]).path() == p && back[p]
                    == records[k];
            assert(is_record(s.dialogs, records[k]));
            let q = choose|q: Seq<Seq<char>>| #[trigger]
                s.dialogs.contains_key(q) && s.dialogs[q] == records[k];
            assert(q == p);
        }
    }
    assert(back =~= s.dialogs);
}

/// The key of a server transaction.
pub open spec fn server_key(branch: Seq<char>, method: Seq<char>) -> KeyView {
    KeyView { branch, method, role: Role::Server }
}

/// The key of a server transaction.
pub fn server_txn_key(branch: &str, method: &str) -> (r: TransactionKey)
    ensures
        r@ == server_key(branch@, method@),
{
    TransactionKey { branch: branch.to_owned(), method: method.to_owned(), role: Role::Server }
}

} // verus!
