//! The clipboard sync session: what is sent to the relay, what is done
//! with what the relay delivers, and the checks on connection requests.
use vstd::prelude::*;

use crate::clipboard::{files_view, ClipboardFile, ClipboardFileView, opt_str_view, same_files};
use crate::text::{
    decimal_spec, decimal_string, is_unicode_white_space, law_trim_blank, seq_starts_with, starts_with, str_eq, trim,
    trim_spec,
};

verus! {

/// A message exchanged through the relay: its kind (`join` or
/// `clipboard`), the room, the sending client, and the clipboard text.
#[derive(Debug, PartialEq, Eq)]
pub struct Envelope {
    pub kind: String,
    pub room: String,
    pub sender_id: String,
    pub text: String,
}

/// The mathematical value of an [`Envelope`].
pub struct EnvelopeView {
    pub kind: Seq<char>,
    pub room: Seq<char>,
    pub sender_id: Seq<char>,
    pub text: Seq<char>,
}

impl View for Envelope {
    type V = EnvelopeView;

    open spec fn view(&self) -> EnvelopeView {
        EnvelopeView {
            kind: self.kind@,
            room: self.room@,
            sender_id: self.sender_id@,
            text: self.text@,
        }
    }
}

/// The state of a client's sync session: its room and id, the clipboard
/// text last sent or received, and the clipboard files last seen.
pub struct SyncSession {
    room: String,
    client_id: String,
    last_seen: Option<String>,
    last_files: Vec<ClipboardFile>,
}

/// The mathematical value of a [`SyncSession`].
pub struct SyncSessionView {
    pub room: Seq<char>,
    pub client_id: Seq<char>,
    pub last_seen: Option<Seq<char>>,
    pub last_files: Seq<ClipboardFileView>,
}

impl View for SyncSession {
    type V = SyncSessionView;

    closed spec fn view(&self) -> SyncSessionView {
        SyncSessionView {
            room: self.room@,
            client_id: self.client_id@,
            last_seen: opt_str_view(self.last_seen),
            last_files: files_view(self.last_files@),
        }
    }
}

/// What to do with a message from the relay.
#[derive(Debug, PartialEq, Eq, Clone, Copy)]
pub enum IncomingAction {
    /// Another client joined the room: send the message back so that it
    /// learns of this client.
    Echo,
    /// Another client copied text: write it to the local clipboard.
    WriteClipboard,
    /// The message is for another room, from this client, or of no use.
    Ignore,
}

/// The clipboard files seen after a poll that found `files`: they are
/// remembered when they are new and not empty; otherwise nothing is.
pub open spec fn observe_files_spec(s: SyncSessionView, files: Seq<ClipboardFileView>) -> (
    SyncSessionView,
    bool,
) {
    if files.len() > 0 && files != s.last_files {
        (SyncSessionView { last_files: files, ..s }, true)
    } else {
        (SyncSessionView { last_files: Seq::empty(), ..s }, false)
    }
}

/// The message to send for the local clipboard text `text`: none when it
/// is the text last sent or received.
pub open spec fn outgoing_spec(s: SyncSessionView, text: Seq<char>) -> Option<EnvelopeView> {
    if s.last_seen == Some(text) {
        None
    } else {
        Some(EnvelopeView { kind: "clipboard"@, room: s.room, sender_id: s.client_id, text })
    }
}

/// The session after trying to send `text`: the text is remembered when
/// it was sent.
pub open spec fn after_send_spec(s: SyncSessionView, text: Seq<char>, sent: bool) -> SyncSessionView {
    if sent {
        SyncSessionView { last_seen: Some(text), ..s }
    } else {
        s
    }
}

/// The session after trying to write received text to the clipboard: the
/// text is remembered when it was written.
pub open spec fn after_apply_spec(s: SyncSessionView, text: Seq<char>, wrote: bool) -> SyncSessionView {
    if wrote {
        SyncSessionView { last_seen: Some(text), ..s }
    } else {
        s
    }
}

/// What to do with a message from the relay: only messages of this room
/// from other clients matter.
pub open spec fn incoming_spec(s: SyncSessionView, p: EnvelopeView) -> IncomingAction {
    if p.room == s.room && p.sender_id != s.client_id {
        if p.kind == "join"@ {
            IncomingAction::Echo
        } else if p.kind == "clipboard"@ {
            IncomingAction::WriteClipboard
        } else {
            IncomingAction::Ignore
        }
    } else {
        IncomingAction::Ignore
    }
}

impl SyncSession {
    /// A fresh session for `client_id` in `room`.
    pub fn new(room: String, client_id: String) -> (res: SyncSession)
        ensures
            res@ == (SyncSessionView {
                room: room@,
                client_id: client_id@,
                last_seen: None,
                last_files: Seq::empty(),
            }),
    {
        let res = SyncSession { room, client_id, last_seen: None, last_files: Vec::new() };
        assert(files_view(res.last_files@) =~= Seq::<ClipboardFileView>::empty());
        res
    }

    /// The message that announces this client in its room.
    pub fn join_envelope(&self) -> (res: Envelope)
        ensures
            res@ == (EnvelopeView {
                kind: "join"@,
                room: self@.room,
                sender_id: self@.client_id,
                text: ""@,
            }),
    {
        proof {
            reveal_strlit("");
        }
        let res = Envelope {
            kind: String::from_str("join"),
            room: self.room.clone(),
            sender_id: self.client_id.clone(),
            text: String::new(),
        };
        assert(res.text@ =~= ""@);
        res
    }

    /// Records the clipboard files found by a poll; true when they are new
    /// and should be shared and shown.
    pub fn observe_files(&mut self, files: &Vec<ClipboardFile>) -> (changed: bool)
        ensures
            (final(self)@, changed) == observe_files_spec(old(self)@, files_view(files@)),
    {
        let changed = files.len() > 0 && !same_files(files, &self.last_files);
        let mut next: Vec<ClipboardFile> = Vec::new();
        if changed {
            let mut i: usize = 0;
            while i < files.len()
                invariant
                    i <= files@.len(),
                    files_view(next@) == files_view(files@.take(i as int)),
                decreases files@.len() - i,
            {
                let f = files[i].duplicate();
                let ghost before = files_view(next@);
                next.push(f);
                assert(files_view(files@.take(i + 1)) =~= files_view(files@.take(i as int)).push(
                    files@[i as int]@,
                ));
                assert(files_view(next@) =~= before.push(f@));
                i = i + 1;
            }
            assert(files@.take(files@.len() as int) =~= files@);
        }
        assert(!changed ==> files_view(next@) =~= Seq::<ClipboardFileView>::empty());
        self.last_files = next;
        changed
    }

    /// The message to send for the local clipboard text `text`, if any.
    pub fn outgoing_text(&self, text: &str) -> (res: Option<Envelope>)
        ensures
            match res {
                Some(e) => outgoing_spec(self@, text@) == Some(e@),
                None => outgoing_spec(self@, text@) is None,
            },
    {
        let repeated = match &self.last_seen {
            Some(t) => str_eq(t.as_str(), text),
            None => false,
        };
        if repeated {
            None
        } else {
            Some(
                Envelope {
                    kind: String::from_str("clipboard"),
                    room: self.room.clone(),
                    sender_id: self.client_id.clone(),
                    text: String::from_str(text),
                },
            )
        }
    }

    /// Records the outcome of sending `text`; true when the session goes
    /// on, false when the connection to the relay was lost.
    pub fn record_send(&mut self, text: String, sent: bool) -> (goes_on: bool)
        ensures
            final(self)@ == after_send_spec(old(self)@, text@, sent),
            goes_on == sent,
    {
        if sent {
            self.last_seen = Some(text);
        }
        sent
    }

    /// What to do with the message `packet` from the relay.
    pub fn incoming(&self, packet: &Envelope) -> (res: IncomingAction)
        ensures
            res == incoming_spec(self@, packet@),
    {
        if str_eq(packet.room.as_str(), self.room.as_str()) && !str_eq(
            packet.sender_id.as_str(),
            self.client_id.as_str(),
        ) {
            if str_eq(packet.kind.as_str(), "join") {
                IncomingAction::Echo
            } else if str_eq(packet.kind.as_str(), "clipboard") {
                IncomingAction::WriteClipboard
            } else {
                IncomingAction::Ignore
            }
        } else {
            IncomingAction::Ignore
        }
    }

    /// Records the outcome of writing the received `text` to the local
    /// clipboard.
    pub fn record_applied(&mut self, text: String, wrote: bool)
        ensures
            final(self)@ == after_apply_spec(old(self)@, text@, wrote),
    {
        if wrote {
            self.last_seen = Some(text);
        }
    }
}

/// Text sent or received once is not sent again: after a successful send
/// of `text`, or after `text` from another client was written to the
/// clipboard, the same clipboard text yields no message.
pub proof fn law_no_resend(s: SyncSessionView, text: Seq<char>)
    ensures
        outgoing_spec(after_send_spec(s, text, true), text) is None,
        outgoing_spec(after_apply_spec(s, text, true), text) is None,
{
}

/// New clipboard text is sent: when it differs from what was last sent or
/// received, it goes out as a `clipboard` message of this client and room.
pub proof fn law_new_text_sent(s: SyncSessionView, text: Seq<char>)
    requires
        s.last_seen != Some(text),
    ensures
        outgoing_spec(s, text) == Some(
            EnvelopeView { kind: "clipboard"@, room: s.room, sender_id: s.client_id, text },
        ),
{
}

/// What a message of this room from another client asks for: a `join`
/// is echoed, a `clipboard` message is written to the clipboard, any other
/// kind is ignored.
pub proof fn law_incoming_actions(s: SyncSessionView, p: EnvelopeView)
    requires
        p.room == s.room,
        p.sender_id != s.client_id,
    ensures
        p.kind == seq!['j', 'o', 'i', 'n'] ==> incoming_spec(s, p) == IncomingAction::Echo,
        p.kind == seq!['c', 'l', 'i', 'p', 'b', 'o', 'a', 'r', 'd'] ==> incoming_spec(s, p)
            == IncomingAction::WriteClipboard,
        p.kind != seq!['j', 'o', 'i', 'n'] && p.kind != seq!['c', 'l', 'i', 'p', 'b', 'o', 'a', 'r', 'd']
            ==> incoming_spec(s, p) == IncomingAction::Ignore,
{
    reveal_strlit("join");
    reveal_strlit("clipboard");
    assert("join"@ =~= seq!['j', 'o', 'i', 'n']);
    assert("clipboard"@ =~= seq!['c', 'l', 'i', 'p', 'b', 'o', 'a', 'r', 'd']);
}

/// Sending and writing remember the text only when they succeed: after a
/// success the text is the one last seen, after a failure the session is
/// unchanged.
pub proof fn law_remember_on_success(s: SyncSessionView, text: Seq<char>)
    ensures
        after_send_spec(s, text, true).last_seen == Some(text),
        after_send_spec(s, text, true).room == s.room,
        after_send_spec(s, text, true).client_id == s.client_id,
        after_send_spec(s, text, true).last_files == s.last_files,
        after_send_spec(s, text, false) == s,
        after_apply_spec(s, text, true).last_seen == Some(text),
        after_apply_spec(s, text, true).last_files == s.last_files,
        after_apply_spec(s, text, false) == s,
{
}

/// A relay started here is joined through a request that passes the
/// connection checks: whenever the relay request passes its checks, so
/// does the connection request to `ws://127.0.0.1` on its port.
pub proof fn law_local_relay_joinable(port: u16, room: Seq<char>)
    requires
        relay_check_spec(port, room) == Ok::<(), Seq<char>>(()),
    ensures
        connect_check_spec(relay_endpoint_spec(port), room) == Ok::<(), Seq<char>>(()),
        seq_starts_with(relay_endpoint_spec(port), seq!['w', 's', ':', '/', '/', '1', '2', '7', '.', '0', '.', '0', '.', '1', ':']),
{
    reveal_strlit("ws://127.0.0.1:");
    reveal_strlit("ws://");
    let e = relay_endpoint_spec(port);
    assert(e.subrange(0, 5) =~= "ws://"@);
    assert(e.subrange(0, 15) =~= seq!['w', 's', ':', '/', '/', '1', '2', '7', '.', '0', '.', '0', '.', '1', ':']);
}

/// A client never acts on its own messages nor on those of another room.
pub proof fn law_foreign_only(s: SyncSessionView, p: EnvelopeView)
    requires
        p.sender_id == s.client_id || p.room != s.room,
    ensures
        incoming_spec(s, p) == IncomingAction::Ignore,
{
}

/// A poll that finds files differing from the remembered ones, in length
/// or in any entry, reports them as new and remembers exactly them; the
/// rest of the session is kept.
pub proof fn law_changed_files_reported(s: SyncSessionView, files: Seq<ClipboardFileView>)
    requires
        files.len() > 0,
        files.len() != s.last_files.len() || exists|i: int|
            0 <= i < files.len() && #[trigger] files[i] != s.last_files[i],
    ensures
        observe_files_spec(s, files).1,
        observe_files_spec(s, files).0.last_files == files,
        observe_files_spec(s, files).0.room == s.room,
        observe_files_spec(s, files).0.client_id == s.client_id,
        observe_files_spec(s, files).0.last_seen == s.last_seen,
{
    if files.len() == s.last_files.len() {
        let i = choose|i: int| 0 <= i < files.len() && #[trigger] files[i] != s.last_files[i];
        assert(files[i] != s.last_files[i]);
    }
    assert(files != s.last_files);
}

/// A poll that finds nothing, or exactly the remembered files, reports
/// nothing and forgets the remembered files.
pub proof fn law_unchanged_files_not_reported(s: SyncSessionView, files: Seq<ClipboardFileView>)
    requires
        files.len() == 0 || files == s.last_files,
    ensures
        !observe_files_spec(s, files).1,
        observe_files_spec(s, files).0.last_files.len() == 0,
{
}

/// Polling the same files twice in a row reports them once: after files
/// were reported as new, finding them again reports nothing.
pub proof fn law_files_reported_once(s: SyncSessionView, files: Seq<ClipboardFileView>)
    requires
        observe_files_spec(s, files).1,
    ensures
        !observe_files_spec(observe_files_spec(s, files).0, files).1,
{
}

/// A request to join a relay, as the user interface sends it.
pub struct ConnectRequest {
    pub endpoint: String,
    pub room: String,
    pub client_id: String,
}

/// A request to run the relay on this machine, as the user interface
/// sends it.
pub struct RelayRequest {
    pub port: u16,
    pub room: String,
    pub client_id: String,
}

/// The checks on a connection request: a WebSocket address and a room
/// that is not blank.
pub open spec fn connect_check_spec(endpoint: Seq<char>, room: Seq<char>) -> Result<(), Seq<char>> {
    if !seq_starts_with(endpoint, "ws://"@) && !seq_starts_with(endpoint, "wss://"@) {
        Err("La dirección debe comenzar con ws:// o wss://"@)
    } else if trim_spec(room).len() == 0 {
        Err("La sala no puede estar vacía"@)
    } else {
        Ok(())
    }
}

/// The view of a check result.
pub open spec fn check_view(r: Result<(), String>) -> Result<(), Seq<char>> {
    match r {
        Ok(()) => Ok(()),
        Err(e) => Err(e@),
    }
}

impl ConnectRequest {
    /// Checks the request before connecting.
    pub fn check(&self) -> (res: Result<(), String>)
        ensures
            check_view(res) == connect_check_spec(self.endpoint@, self.room@),
    {
        if !starts_with(self.endpoint.as_str(), "ws://") && !starts_with(
            self.endpoint.as_str(),
            "wss://",
        ) {
            return Err(String::from_str("La dirección debe comenzar con ws:// o wss://"));
        }
        if trim(self.room.as_str()).is_empty() {
            return Err(String::from_str("La sala no puede estar vacía"));
        }
        Ok(())
    }
}

/// The checks on a relay request: a port other than 0 and a room that is
/// not blank.
pub open spec fn relay_check_spec(port: u16, room: Seq<char>) -> Result<(), Seq<char>> {
    if port == 0 {
        Err("El puerto debe estar entre 1 y 65535"@)
    } else if trim_spec(room).len() == 0 {
        Err("La sala no puede estar vacía"@)
    } else {
        Ok(())
    }
}

/// A connection request is accepted exactly when its address starts with
/// `ws://` or `wss://` and its room holds a character that is not
/// whitespace, whatever whitespace the room holds besides; otherwise the
/// address is reported first, then the blank room.
pub proof fn law_connect_check(endpoint: Seq<char>, room: Seq<char>)
    ensures
        (seq_starts_with(endpoint, "ws://"@) || seq_starts_with(endpoint, "wss://"@)) && (exists|
            j: int,
        | 0 <= j < room.len() && !is_unicode_white_space(#[trigger] room[j])) ==> connect_check_spec(
            endpoint,
            room,
        ) == Ok::<(), Seq<char>>(()),
        !seq_starts_with(endpoint, "ws://"@) && !seq_starts_with(endpoint, "wss://"@)
            ==> connect_check_spec(endpoint, room) == Err::<(), Seq<char>>(
            "La dirección debe comenzar con ws:// o wss://"@,
        ),
        (seq_starts_with(endpoint, "ws://"@) || seq_starts_with(endpoint, "wss://"@)) && (forall|
            j: int,
        | 0 <= j < room.len() ==> is_unicode_white_space(#[trigger] room[j])) ==> connect_check_spec(
            endpoint,
            room,
        ) == Err::<(), Seq<char>>("La sala no puede estar vacía"@),
{
    law_trim_blank(room);
}

/// A relay request is accepted exactly when its port is not 0 and its
/// room holds a character that is not whitespace.
pub proof fn law_relay_check(port: u16, room: Seq<char>)
    ensures
        port != 0 && (exists|j: int| 0 <= j < room.len() && !is_unicode_white_space(
            #[trigger] room[j],
        )) ==> relay_check_spec(port, room) == Ok::<(), Seq<char>>(()),
        port == 0 ==> relay_check_spec(port, room) == Err::<(), Seq<char>>(
            "El puerto debe estar entre 1 y 65535"@,
        ),
        port != 0 && (forall|j: int| 0 <= j < room.len() ==> is_unicode_white_space(
            #[trigger] room[j],
        )) ==> relay_check_spec(port, room) == Err::<(), Seq<char>>("La sala no puede estar vacía"@),
{
    law_trim_blank(room);
}

/// The address at which the local relay on `port` is joined.
pub open spec fn relay_endpoint_spec(port: u16) -> Seq<char> {
    "ws://127.0.0.1:"@ + decimal_spec(port as nat)
}

impl RelayRequest {
    /// Checks the request before starting the relay.
    pub fn check(&self) -> (res: Result<(), String>)
        ensures
            check_view(res) == relay_check_spec(self.port, self.room@),
    {
        if self.port == 0 {
            return Err(String::from_str("El puerto debe estar entre 1 y 65535"));
        }
        if trim(self.room.as_str()).is_empty() {
            return Err(String::from_str("La sala no puede estar vacía"));
        }
        Ok(())
    }

    /// The request with which this machine joins its own relay.
    pub fn local_connect_request(&self) -> (res: ConnectRequest)
        ensures
            res.endpoint@ == relay_endpoint_spec(self.port),
            res.room@ == self.room@,
            res.client_id@ == self.client_id@,
    {
        let mut endpoint = String::from_str("ws://127.0.0.1:");
        let p = decimal_string(self.port as u64);
        endpoint.append(p.as_str());
        ConnectRequest {
            endpoint,
            room: self.room.clone(),
            client_id: self.client_id.clone(),
        }
    }
}

/// Whether the relay passes on a text message of kind `kind` to the
/// clients of its rooms: only `join` and `clipboard` messages are.
pub fn should_relay(kind: &str) -> (res: bool)
    ensures
        res == (kind@ == "join"@ || kind@ == "clipboard"@),
{
    str_eq(kind, "join") || str_eq(kind, "clipboard")
}

} // verus!
