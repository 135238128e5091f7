//! A connection: which answers a request gets, who hears of a change, and what a client is called.
use vstd::prelude::*;

use crate::daemon::{actor_name, ClientView, Daemon, DEFAULT_VIEWPORT};
use crate::edits::one_attempt;
use crate::process::{open_to_headless, Request};
use crate::strings::{decimal, decimal_digits};
use crate::text::is_peer_allowed;
use crate::types::{ClientKind, Command, EventKind, EventSource, ServerMessage};

verus! {

/// The greatest length of a request line, in bytes.
pub const MAX_CMD_LINE: usize = 1024 * 1024;

/// How many connections are served at a time.
pub const MAX_CONNECTIONS: usize = 4;

/// Whether a peer may connect: its user is known and is the daemon's own.
pub fn admits(peer_uid: Option<u32>, daemon_uid: u32) -> (r: bool)
    ensures
        r == (peer_uid == Some(daemon_uid)),
{
    match peer_uid {
        Some(uid) => is_peer_allowed(uid, daemon_uid),
        None => false,
    }
}

/// Whether a request line is too long; the connection is then closed.
pub fn line_too_long(len: usize) -> (r: bool)
    ensures
        r == (len > MAX_CMD_LINE),
{
    len > MAX_CMD_LINE
}

/// What the changes of a client are recorded under.
pub fn source_of(kind: ClientKind) -> (r: EventSource)
    ensures
        r == match kind {
            ClientKind::Interactive => EventSource::Interactive,
            ClientKind::Headless => EventSource::Headless,
        },
{
    match kind {
        ClientKind::Interactive => EventSource::Interactive,
        ClientKind::Headless => EventSource::Headless,
    }
}

/// Whether a client hears of the changes of others. A headless one reads one answer and goes.
pub fn subscribes(kind: ClientKind) -> (r: bool)
    ensures
        r == (kind == ClientKind::Interactive),
{
    match kind {
        ClientKind::Interactive => true,
        ClientKind::Headless => false,
    }
}

/// The kinds of answers to a request. All but the last leave the shared state as it is, apart from
/// a rename, and are given to every client.
#[derive(Clone, Copy, Debug, PartialEq, Eq, Structural)]
pub enum Route {
    InlayHints,
    PeekDefinition,
    PeekDefinitionAt,
    Rename,
    References,
    Outline,
    OutlineRecursive,
    ReadPath,
    EnclosingSymbol,
    HoverAt,
    WorkspaceSymbol,
    CheckDiagnostics,
    ServerInfo,
    ReviewComments,
    Process,
}

/// The kind of answer to a request.
pub open spec fn route_of(q: Request) -> Route {
    match q {
        Request::Command(c) => match c {
            Command::GetInlayHints { .. } => Route::InlayHints,
            Command::PeekDefinition => Route::PeekDefinition,
            Command::PeekDefinitionAt { .. } => Route::PeekDefinitionAt,
            Command::Rename { .. } => Route::Rename,
            Command::References { .. } => Route::References,
            Command::Outline { .. } => Route::Outline,
            Command::OutlineRecursive { .. } => Route::OutlineRecursive,
            Command::ReadPath { .. } => Route::ReadPath,
            Command::EnclosingSymbol { .. } => Route::EnclosingSymbol,
            Command::HoverAt { .. } => Route::HoverAt,
            Command::WorkspaceSymbol { .. } => Route::WorkspaceSymbol,
            Command::CheckDiagnostics { .. } => Route::CheckDiagnostics,
            Command::GetServerInfo => Route::ServerInfo,
            Command::ListReviewComments => Route::ReviewComments,
            _ => Route::Process,
        },
        _ => Route::Process,
    }
}

/// The kind of answer to a request.
pub fn route(q: &Request) -> (r: Route)
    ensures
        r == route_of(*q),
{
    match q {
        Request::Command(c) => match c {
            Command::GetInlayHints { .. } => Route::InlayHints,
            Command::PeekDefinition => Route::PeekDefinition,
            Command::PeekDefinitionAt { .. } => Route::PeekDefinitionAt,
            Command::Rename { .. } => Route::Rename,
            Command::References { .. } => Route::References,
            Command::Outline { .. } => Route::Outline,
            Command::OutlineRecursive { .. } => Route::OutlineRecursive,
            Command::ReadPath { .. } => Route::ReadPath,
            Command::EnclosingSymbol { .. } => Route::EnclosingSymbol,
            Command::HoverAt { .. } => Route::HoverAt,
            Command::WorkspaceSymbol { .. } => Route::WorkspaceSymbol,
            Command::CheckDiagnostics { .. } => Route::CheckDiagnostics,
            Command::GetServerInfo => Route::ServerInfo,
            Command::ListReviewComments => Route::ReviewComments,
            _ => Route::Process,
        },
        _ => Route::Process,
    }
}

/// Whether a headless client gets an answer other than the refusal.
pub open spec fn headless_served(q: Request) -> bool {
    match q {
        Request::Command(c) => route_of(q) != Route::Process || open_to_headless(c),
        _ => true,
    }
}

/// No headless client can move a cursor, change the mode, edit by command or use the undo history.
pub proof fn headless_cannot_steer(c: Command)
    requires
        headless_served(Request::Command(c)),
    ensures
        crate::commands::preempts(c) == false,
        !(c is SetMode),
        !(c is Move),
        !(c is Extend),
        !(c is Goto),
        !(c is Scroll),
        !(c is ScrollHalf),
        !(c is SetViewport),
        !(c is Search),
        !(c is SearchNext),
        !(c is SearchSelection),
        !(c is AddReviewComment),
{
}

impl Daemon {
    /// The pane and the screen height from which a notice for a client is made, or nothing if the
    /// change was the client's own: it has the answer to its request.
    pub fn push_view(&self, origin: Option<u64>, conn_id: u64) -> (r: Option<ClientView>)
        requires
            self.wf(),
        ensures
            r is None <==> origin == Some(conn_id),
            r matches Some(v) ==> self.editor@.has_pane(v.view_id) && v == if self.conn_views@.contains_key(
                conn_id,
            ) {
                self.conn_views@[conn_id]
            } else {
                ClientView { view_id: self.idle_view, viewport: DEFAULT_VIEWPORT }
            },
    {
        broadcast use vstd::std_specs::hash::group_hash_axioms;

        match origin {
            Some(o) => {
                if o == conn_id {
                    return None;
                }
            },
            None => {},
        }
        match self.conn_views.get(&conn_id) {
            Some(v) => {
                assert(self.conn_views@.contains_key(conn_id));
                Some(*v)
            },
            None => Some(ClientView { view_id: self.idle_view, viewport: DEFAULT_VIEWPORT }),
        }
    }

    /// Records a headless client's attempt to rename, with what came of it.
    pub fn record_rename(
        &mut self,
        conn_id: u64,
        path: &str,
        old_name: &str,
        new_name: &str,
        message: &ServerMessage,
    )
        requires
            old(self).wf(),
            old(self).log@.room(1),
        ensures
            final(self).wf(),
            *final(self) == (Daemon { log: final(self).log, ..*old(self) }),
            match *message {
                ServerMessage::RenameResult { files, edits, error, .. } => one_attempt(
                    old(self).log@,
                    final(self).log@,
                    actor_name(old(self).conn_names@, conn_id),
                    EventKind::Rename,
                    error is None,
                    match error {
                        Some(e) => e@,
                        None => rename_detail(path@, old_name@, new_name@, files, edits),
                    },
                ),
                _ => *final(self) == *old(self),
            },
    {
        match message {
            ServerMessage::RenameResult { files, edits, error, .. } => {
                let (ok, detail) = match error {
                    Some(e) => (false, e.clone()),
                    None => {
                        let mut d = old_name.to_owned();
                        d.append(" → ");
                        d.append(new_name);
                        d.append(" in ");
                        d.append(path);
                        d.append(": ");
                        let f = decimal(*files as u64);
                        d.append(f.as_str());
                        d.append(" files, ");
                        let n = decimal(*edits as u64);
                        d.append(n.as_str());
                        d.append(" edits");
                        (true, d)
                    },
                };
                self.record_attempt(conn_id, EventKind::Rename, ok, detail);
            },
            _ => {},
        }
    }
}

/// What the record says of a rename.
pub open spec fn rename_detail(
    path: Seq<char>,
    old_name: Seq<char>,
    new_name: Seq<char>,
    files: usize,
    edits: usize,
) -> Seq<char> {
    old_name + " → "@ + new_name + " in "@ + path + ": "@ + decimal_digits(files as nat)
        + " files, "@ + decimal_digits(edits as nat) + " edits"@
}

} // verus!
