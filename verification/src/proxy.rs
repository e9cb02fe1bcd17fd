//! The client's end of a session: the screen it shows, and what is sent to its
//! supervisor for the keys, pastes and mouse events that it gets.

use crate::emulator::{
    cuts_none, dims, fresh, lines_back, looked_back, reshaped, roomy, shown_by, taken_in, whole,
    Terminal, SCROLLBACK,
};
use crate::event::{KeyEvent, MouseEvent};
use crate::input::{
    encoded, encoding_of, fed, fresh_sniffer, fresh_tracker, sniffed, ClipboardSniffer, KbdTracker,
};
use crate::ipc::ClientMsg;
use crate::screen::{
    chunk_count, key_bytes, modes, modes_of, mouse_deed, on_app_cursor, on_bracketed_paste,
    paste_chunk, paste_writes, scrollback_after, write_mouse, DeedModel, MouseDeed,
};
use crate::session::SessionId;
use crate::supervisor::{output_after, Output};
use crate::text;
use vstd::prelude::*;
use vstd::utf8::encode_utf8;
use vt100::Screen;

verus! {

/// A session as its client knows it.
pub struct ProxySession {
    /// Per-supervisor wire id (what the owning supervisor knows this session
    /// as). Used on every outbound `ClientMsg`.
    pub local_id: SessionId,
    pub terminal: Terminal,
    /// Inner app's keyboard-input protocol, inferred from its PTY output (vt100
    /// doesn't track it).
    pub kbd: KbdTracker,
    /// Looks for what the inner app copies to the clipboard.
    pub clipboard: ClipboardSniffer,
}

/// Whether a message writes those bytes to that session.
pub open spec fn writes(msg: ClientMsg, id: SessionId, bytes: Seq<u8>) -> bool {
    msg matches ClientMsg::WriteBytes { id: to, bytes: b } && to == id && b@ == bytes
}

/// How far back the view is once it moved by `delta` lines; never in front of
/// the present.
pub open spec fn back_by(now: usize, delta: int) -> usize {
    if now + delta < 0 {
        0
    } else {
        (now + delta) as usize
    }
}

/// A session whose view was moved by `delta` lines and which is else the same.
pub open spec fn bumped(s: ProxySession, delta: int) -> ProxySession {
    ProxySession {
        terminal: looked_back(s.terminal, back_by(lines_back(s.terminal.emulator), delta)),
        ..s
    }
}

/// Whether `after` is `before` once it took a dump or a delta in: the screen shows
/// it, and the same bytes are sniffed for keyboard-protocol negotiation and for
/// copies to the clipboard, which are `copied`.
pub open spec fn session_after(
    before: ProxySession,
    bytes: Seq<u8>,
    after: ProxySession,
    copied: Seq<Seq<char>>,
) -> bool {
    &&& after.local_id == before.local_id
    &&& after.terminal == taken_in(before.terminal, bytes)
    &&& after.kbd@ == fed(before.kbd@, bytes)
    &&& (after.clipboard@, copied) == sniffed(before.clipboard@, bytes)
}

impl ProxySession {
    /// A session that has printed nothing yet.
    pub fn new(local_id: SessionId, rows: u16, cols: u16) -> (r: ProxySession)
        requires
            roomy(rows, cols),
        ensures
            r.terminal.wf(),
            r.local_id == local_id,
            r.terminal == (Terminal {
                emulator: fresh(rows, cols, SCROLLBACK),
                plain: true,
                sure: true,
            }),
            dims(r.terminal.emulator) == (rows, cols),
            r.kbd@ == fresh_tracker(),
            r.clipboard@ == fresh_sniffer(),
    {
        ProxySession {
            local_id,
            terminal: Terminal::new(rows, cols),
            kbd: KbdTracker::default(),
            clipboard: ClipboardSniffer::default(),
        }
    }

    /// Takes a dump or a delta in, and gives what the session copied.
    pub fn take_in(&mut self, bytes: &[u8]) -> (r: Vec<String>)
        requires
            old(self).terminal.wf(),
            whole(old(self).terminal.emulator),
        ensures
            final(self).terminal.wf(),
            session_after(*old(self), bytes@, *final(self), text::texts(r@)),
            dims(final(self).terminal.emulator) == dims(old(self).terminal.emulator),
            whole(final(self).terminal.emulator),
    {
        self.terminal.take_in(bytes);
        self.kbd.feed(bytes);
        self.clipboard.feed(bytes)
    }

    /// Takes a dump or a delta in if the screen is sure to hold no cut character,
    /// and gives what the session copied.
    pub fn try_take_in(&mut self, bytes: &[u8]) -> (r: Option<Vec<String>>)
        requires
            old(self).terminal.wf(),
        ensures
            final(self).terminal.wf(),
            r is Some == old(self).terminal.sure,
            dims(final(self).terminal.emulator) == dims(old(self).terminal.emulator),
            match r {
                Some(copied) => session_after(
                    *old(self),
                    bytes@,
                    *final(self),
                    text::texts(copied@),
                ),
                None => *final(self) == *old(self),
            },
    {
        if !self.terminal.sure {
            return None;
        }
        Some(self.take_in(bytes))
    }

    /// The screen as it is now.
    pub fn screen(&self) -> (r: &Screen)
        ensures
            *r == shown_by(self.terminal.emulator),
    {
        self.terminal.screen()
    }

    /// What is sent for a key: nothing where the key has no bytes.
    pub fn write_key(&self, key: KeyEvent) -> (r: Option<ClientMsg>)
        ensures
            ({
                let bytes = encoded(
                    key,
                    on_app_cursor(shown_by(self.terminal.emulator)),
                    encoding_of(self.kbd@),
                );
                match r {
                    Some(msg) => bytes.len() > 0 && writes(msg, self.local_id, bytes),
                    None => bytes.len() == 0,
                }
            }),
    {
        let bytes = key_bytes(key, self.terminal.screen(), &self.kbd);
        if bytes.is_empty() {
            return None;
        }
        Some(ClientMsg::WriteBytes { id: self.local_id, bytes })
    }

    /// What is sent for a paste, one message for each chunk. Bracketed-paste
    /// markers are sent only when the *inner* app has them enabled; otherwise dumb
    /// apps would see them as garbage.
    pub fn write_paste(&self, s: &str) -> (r: Vec<ClientMsg>)
        ensures
            r.len() == chunk_count(encode_utf8(s@).len()),
            forall|i: int|
                0 <= i < r@.len() ==> writes(
                    #[trigger] r@[i],
                    self.local_id,
                    paste_chunk(
                        encode_utf8(s@),
                        on_bracketed_paste(shown_by(self.terminal.emulator)),
                        i,
                    ),
                ),
    {
        let chunks = paste_writes(s, self.terminal.screen());
        let ghost given = chunks@;
        let mut out: Vec<ClientMsg> = Vec::new();
        for bytes in it: chunks
            invariant
                it.seq() == given,
                out@.len() == it.index(),
                forall|i: int|
                    0 <= i < out@.len() ==> writes(#[trigger] out@[i], self.local_id, given[i]@),
        {
            out.push(ClientMsg::WriteBytes { id: self.local_id, bytes });
        }
        out
    }

    /// Moves the view by so many lines into what has scrolled away, or back.
    pub fn bump_scrollback(&mut self, delta: i32)
        requires
            old(self).terminal.wf(),
        ensures
            final(self).terminal.wf(),
            *final(self) == bumped(*old(self), delta as int),
            lines_back(final(self).terminal.emulator) <= back_by(
                lines_back(old(self).terminal.emulator),
                delta as int,
            ),
            dims(final(self).terminal.emulator) == dims(old(self).terminal.emulator),
            whole(final(self).terminal.emulator) == whole(old(self).terminal.emulator),
    {
        let now: usize = self.terminal.scrollback();
        self.terminal.look_back(scrollback_after(now, delta));
    }

    /// What is sent for a mouse event; the wheel moves the view where the inner
    /// app does not get it.
    pub fn write_mouse(&mut self, ev: MouseEvent) -> (r: Option<ClientMsg>)
        requires
            old(self).terminal.wf(),
        ensures
            final(self).terminal.wf(),
            dims(final(self).terminal.emulator) == dims(old(self).terminal.emulator),
            whole(final(self).terminal.emulator) == whole(old(self).terminal.emulator),
            match mouse_deed(ev, modes(shown_by(old(self).terminal.emulator))) {
                DeedModel::Write(bytes) => *final(self) == *old(self) && (r matches Some(msg)
                    && writes(msg, old(self).local_id, bytes)),
                DeedModel::ScrollBack => *final(self) == bumped(*old(self), 3) && r is None,
                DeedModel::ScrollForward => *final(self) == bumped(*old(self), -3) && r is None,
                DeedModel::Nothing => *final(self) == *old(self) && r is None,
            },
    {
        match write_mouse(ev, modes_of(self.terminal.screen())) {
            MouseDeed::Write(bytes) => Some(ClientMsg::WriteBytes { id: self.local_id, bytes }),
            MouseDeed::ScrollBack => {
                self.bump_scrollback(3);
                None
            },
            MouseDeed::ScrollForward => {
                self.bump_scrollback(-3);
                None
            },
            MouseDeed::Nothing => None,
        }
    }

    /// Gives the screen another size, and says what is sent for it.
    pub fn resize(&mut self, rows: u16, cols: u16) -> (r: ClientMsg)
        requires
            old(self).terminal.wf(),
            roomy(rows, cols),
        ensures
            final(self).terminal.wf(),
            *final(self) == (ProxySession {
                terminal: reshaped(old(self).terminal, rows, cols),
                ..*old(self)
            }),
            dims(final(self).terminal.emulator) == (rows, cols),
            whole(old(self).terminal.emulator) && cuts_none(old(self).terminal.emulator, cols)
                ==> whole(final(self).terminal.emulator),
            r == (ClientMsg::Resize { id: old(self).local_id, rows, cols }),
    {
        self.terminal.resize(rows, cols);
        ClientMsg::Resize { id: self.local_id, rows, cols }
    }

    /// What is sent to end the session.
    pub fn kill(&self) -> (r: ClientMsg)
        ensures
            r == (ClientMsg::Kill { id: self.local_id }),
    {
        ClientMsg::Kill { id: self.local_id }
    }
}

/// A client that takes in what its supervisor takes in shows the same screen as the
/// supervisor and knows the same keyboard protocol.
pub proof fn law_both_ends_agree(
    host: Output,
    client: ProxySession,
    bytes: Seq<u8>,
    host_after: Output,
    client_after: ProxySession,
    copied: Seq<Seq<char>>,
)
    requires
        host.terminal == client.terminal,
        host.kbd@ == client.kbd@,
        output_after(host, bytes, host_after),
        session_after(client, bytes, client_after, copied),
    ensures
        host_after.terminal == client_after.terminal,
        host_after.kbd@ == client_after.kbd@,
{
}

} // verus!
