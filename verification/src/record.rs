//! Dialog records: what the engine remembers of each call leg.

use vstd::prelude::*;

use crate::table::{key3, key_view, Key};
use crate::text;

verus! {

/// State of a live dialog.
#[derive(Copy, Clone, Debug, PartialEq, Eq, Structural)]
pub enum DialogState {
    /// The ACK was not seen yet.
    Early,
    /// The ACK was seen.
    Confirmed,
}

/// Identity of a dialog: Call-ID, local tag, remote tag.
pub type DialogKey = (String, String, String);

/// The model of a dialog's identity.
pub open spec fn dialog_path(k: DialogKey) -> Seq<Seq<char>> {
    seq![k.0@, k.1@, k.2@]
}

/// The place of a dialog in a table.
pub(crate) fn place_of(k: &DialogKey) -> (r: Key)
    ensures
        key_view(r) == dialog_path(*k),
{
    key3(&k.0, &k.1, &k.2)
}

/// A copy of a dialog's identity.
pub(crate) fn copy_dialog_key(k: &DialogKey) -> (r: DialogKey)
    ensures
        dialog_path(r) == dialog_path(*k),
        r.0@ == k.0@,
        r.1@ == k.1@,
        r.2@ == k.2@,
{
    (k.0.clone(), k.1.clone(), k.2.clone())
}

/// Where a side sends or receives media.
#[derive(Debug)]
pub struct MediaAddr {
    /// IP address.
    pub host: String,
    /// Port.
    pub port: u16,
}

impl View for MediaAddr {
    type V = (Seq<char>, u16);

    open spec fn view(&self) -> (Seq<char>, u16) {
        (self.host@, self.port)
    }
}

impl MediaAddr {
    /// A copy.
    pub fn duplicate(&self) -> (r: Self)
        ensures
            r@ == self@,
    {
        MediaAddr { host: self.host.clone(), port: self.port }
    }
}

/// The model of an optional address.
pub open spec fn addr_opt(o: Option<MediaAddr>) -> Option<(Seq<char>, u16)> {
    match o {
        Some(a) => Some(a@),
        None => None,
    }
}

/// The model of optional bytes.
pub open spec fn bytes_opt(o: Option<Vec<u8>>) -> Option<Seq<u8>> {
    match o {
        Some(b) => Some(b@),
        None => None,
    }
}

/// A copy of an optional address.
pub(crate) fn copy_addr(o: &Option<MediaAddr>) -> (r: Option<MediaAddr>)
    ensures
        addr_opt(r) == addr_opt(*o),
{
    match o {
        Some(a) => Some(a.duplicate()),
        None => None,
    }
}

/// A copy of an optional text.
pub(crate) fn copy_text(o: &Option<String>) -> (r: Option<String>)
    ensures
        text::text_opt(r) == text::text_opt(*o),
{
    match o {
        Some(s) => Some(s.clone()),
        None => None,
    }
}

/// A copy of optional bytes.
pub(crate) fn copy_blob(o: &Option<Vec<u8>>) -> (r: Option<Vec<u8>>)
    ensures
        bytes_opt(r) == bytes_opt(*o),
{
    match o {
        Some(b) => Some(text::copy_bytes(b)),
        None => None,
    }
}

/// A copy of a list of texts.
pub(crate) fn copy_list(v: &Vec<String>) -> (r: Vec<String>)
    ensures
        text::texts(r@) == text::texts(v@),
{
    crate::table::copy_key(v)
}

/// One dialog.
#[derive(Debug)]
pub struct DialogRecord {
    /// Call-ID.
    pub call_id: String,
    /// The engine's tag.
    pub local_tag: String,
    /// The peer's tag.
    pub remote_tag: String,
    /// Dialog state.
    pub state: DialogState,
    /// Where the peer sends from, `host:port`.
    pub peer_signal: String,
    /// Rendezvous name that the call was placed to.
    pub rendezvous: Option<String>,
    /// Media endpoint of the leg.
    pub media: Option<u64>,
    /// Where the peer receives media.
    pub remote_media: Option<MediaAddr>,
    /// A 2xx that awaits its ACK.
    pub pending_2xx: Option<Vec<u8>>,
    /// Negotiated audio codec.
    pub audio_codec: Option<String>,
    /// Negotiated video codec.
    pub video_codec: Option<String>,
    /// Negotiated ICE parameters.
    pub ice: Option<String>,
    /// The peer's contact URI.
    pub remote_target: Option<String>,
    /// Route set, in the order in which requests travel it.
    pub route_set: Vec<String>,
    /// The engine's URI.
    pub local_uri: Option<String>,
    /// The peer's URI.
    pub remote_uri: Option<String>,
    /// Last sequence number the engine used.
    pub local_cseq: u32,
    /// Last sequence number the peer used.
    pub remote_cseq: Option<u32>,
    /// `Via` transport token the dialog arrived on.
    pub transport: Option<String>,
    /// Branch of the last INVITE of the dialog.
    pub last_invite_branch: Option<String>,
    /// Where the engine receives media.
    pub local_media: Option<MediaAddr>,
    /// Session interval in force, in seconds.
    pub session_expires_secs: Option<u32>,
}

/// Model of a [`DialogRecord`].
#[verifier::ext_equal]
pub struct RecordView {
    pub call_id: Seq<char>,
    pub local_tag: Seq<char>,
    pub remote_tag: Seq<char>,
    pub state: DialogState,
    pub peer_signal: Seq<char>,
    pub rendezvous: Option<Seq<char>>,
    pub media: Option<u64>,
    pub remote_media: Option<(Seq<char>, u16)>,
    pub pending_2xx: Option<Seq<u8>>,
    pub audio_codec: Option<Seq<char>>,
    pub video_codec: Option<Seq<char>>,
    pub ice: Option<Seq<char>>,
    pub remote_target: Option<Seq<char>>,
    pub route_set: Seq<Seq<char>>,
    pub local_uri: Option<Seq<char>>,
    pub remote_uri: Option<Seq<char>>,
    pub local_cseq: u32,
    pub remote_cseq: Option<u32>,
    pub transport: Option<Seq<char>>,
    pub last_invite_branch: Option<Seq<char>>,
    pub local_media: Option<(Seq<char>, u16)>,
    pub session_expires_secs: Option<u32>,
}

impl RecordView {
    /// The dialog's identity.
    pub open spec fn path(self) -> Seq<Seq<char>> {
        seq![self.call_id, self.local_tag, self.remote_tag]
    }
}

impl View for DialogRecord {
    type V = RecordView;

    open spec fn view(&self) -> RecordView {
        RecordView {
            call_id: self.call_id@,
            local_tag: self.local_tag@,
            remote_tag: self.remote_tag@,
            state: self.state,
            peer_signal: self.peer_signal@,
            rendezvous: text::text_opt(self.rendezvous),
            media: self.media,
            remote_media: addr_opt(self.remote_media),
            pending_2xx: bytes_opt(self.pending_2xx),
            audio_codec: text::text_opt(self.audio_codec),
            video_codec: text::text_opt(self.video_codec),
            ice: text::text_opt(self.ice),
            remote_target: text::text_opt(self.remote_target),
            route_set: text::texts(self.route_set@),
            local_uri: text::text_opt(self.local_uri),
            remote_uri: text::text_opt(self.remote_uri),
            local_cseq: self.local_cseq,
            remote_cseq: self.remote_cseq,
            transport: text::text_opt(self.transport),
            last_invite_branch: text::text_opt(self.last_invite_branch),
            local_media: addr_opt(self.local_media),
            session_expires_secs: self.session_expires_secs,
        }
    }
}

impl DialogRecord {
    /// The dialog's identity.
    pub fn key(&self) -> (r: DialogKey)
        ensures
            dialog_path(r) == self@.path(),
    {
        (self.call_id.clone(), self.local_tag.clone(), self.remote_tag.clone())
    }

    /// A copy.
    pub fn duplicate(&self) -> (r: Self)
        ensures
            r@ == self@,
    {
        DialogRecord {
            call_id: self.call_id.clone(),
            local_tag: self.local_tag.clone(),
            remote_tag: self.remote_tag.clone(),
            state: self.state,
            peer_signal: self.peer_signal.clone(),
            rendezvous: copy_text(&self.rendezvous),
            media: self.media,
            remote_media: copy_addr(&self.remote_media),
            pending_2xx: copy_blob(&self.pending_2xx),
            audio_codec: copy_text(&self.audio_codec),
            video_codec: copy_text(&self.video_codec),
            ice: copy_text(&self.ice),
            remote_target: copy_text(&self.remote_target),
            route_set: copy_list(&self.route_set),
            local_uri: copy_text(&self.local_uri),
            remote_uri: copy_text(&self.remote_uri),
            local_cseq: self.local_cseq,
            remote_cseq: self.remote_cseq,
            transport: copy_text(&self.transport),
            last_invite_branch: copy_text(&self.last_invite_branch),
            local_media: copy_addr(&self.local_media),
            session_expires_secs: self.session_expires_secs,
        }
    }
}

} // verus!
