//! Connections: their panes, the insert session that one of them may own, and what is left when
//! they go.
use vstd::prelude::*;

use crate::daemon::{panes_ok, ClientView, Daemon, DEFAULT_VIEWPORT};
use crate::editor::{
    one_range, pane_from, pane_from_bounds, pane_ok, placed_ok, with_pane_laws, without_pane_laws,
    EditorView, Pane, PaneView, Selection,
};
use crate::types::{ClientKind, EventKind, EventSource, Hello, Mode};

verus! {

/// The pane and the screen height that a connection works with: its own, or the idle pane and the
/// height that was in use last.
pub open spec fn view_of(d: Daemon, conn_id: u64) -> ClientView {
    if d.conn_views@.contains_key(conn_id) {
        d.conn_views@[conn_id]
    } else {
        ClientView { view_id: d.idle_view, viewport: d.viewport_height }
    }
}

/// Whether an insert session is open that another connection owns.
pub open spec fn foreign_session(d: Daemon, conn_id: u64) -> bool {
    d.insert_owner is Some && d.insert_owner != Some(conn_id)
}

/// The editing state with the insert session closed and the mode changed.
pub open spec fn session_closed(e: EditorView, mode: Mode) -> EditorView {
    e.with_group(false).in_mode(mode)
}

/// The editing state without a connection's pane. If the focus was on it, it is on the idle pane.
pub open spec fn without_view(d: Daemon, conn_id: u64) -> EditorView {
    if d.conn_views@.contains_key(conn_id) {
        let gone = d.conn_views@[conn_id].view_id;
        if d.editor@.focused == gone {
            d.editor@.focus(d.idle_view).without_pane(gone)
        } else {
            d.editor@.without_pane(gone)
        }
    } else {
        d.editor@
    }
}

/// Changing selections and first lines keeps the panes of the connections in order.
pub proof fn panes_ok_same_ids(
    a: EditorView,
    b: EditorView,
    conns: vstd::map::Map<u64, ClientView>,
    idle: u64,
    next_pane: u64,
)
    requires
        panes_ok(a, conns, idle, next_pane),
        a.panes.len() == b.panes.len(),
        forall|i: int| 0 <= i < a.panes.len() ==> (#[trigger] a.panes[i]).id == b.panes[i].id,
    ensures
        panes_ok(b, conns, idle, next_pane),
{
    assert forall|id: u64| #[trigger] a.has_pane(id) implies b.has_pane(id) by {
        crate::editor::pane_from_same(a.panes, b.panes, id, 0);
    }
    assert(a.has_pane(idle));
    assert forall|i: int| 0 <= i < b.panes.len() implies (#[trigger] b.panes[i]).id < next_pane by {
        assert(a.panes[i].id == b.panes[i].id);
    }
    assert forall|c: u64| #[trigger] conns.contains_key(c) implies b.has_pane(conns[c].view_id)
        && conns[c].view_id != idle && conns[c].viewport <= crate::daemon::MAX_VIEWPORT_HEIGHT by {
        assert(a.has_pane(conns[c].view_id));
    }
}

/// No pane has the number that the next one will get.
pub proof fn next_pane_is_new(
    e: EditorView,
    conns: vstd::map::Map<u64, ClientView>,
    idle: u64,
    next_pane: u64,
)
    requires
        panes_ok(e, conns, idle, next_pane),
    ensures
        !e.has_pane(next_pane),
{
    pane_from_bounds(e.panes, next_pane, 0);
    let k = pane_from(e.panes, next_pane, 0);
    if k < e.panes.len() {
        assert(e.panes[k].id < next_pane);
    }
}

impl Daemon {
    /// Turns the focus to a connection's pane, and takes over the height of its screen.
    pub fn focus_for(&mut self, conn_id: u64)
        requires
            old(self).wf(),
        ensures
            final(self).wf(),
            *final(self) == (Daemon {
                editor: final(self).editor,
                viewport_height: view_of(*old(self), conn_id).viewport,
                ..*old(self)
            }),
            final(self).editor@ == old(self).editor@.focus(view_of(*old(self), conn_id).view_id),
    {
        broadcast use vstd::std_specs::hash::group_hash_axioms;

        let mut view_id: u64 = self.idle_view;
        let mut viewport: usize = self.viewport_height;
        match self.conn_views.get(&conn_id) {
            Some(v) => {
                view_id = v.view_id;
                viewport = v.viewport;
            },
            None => {},
        }
        let ghost before = self.editor@;
        self.editor.set_focused(view_id);
        self.viewport_height = viewport;
        proof {
            panes_ok_same_ids(
                before,
                self.editor@,
                self.conn_views@,
                self.idle_view,
                self.next_pane,
            );
        }
    }

    /// Gives a connection a pane of its own, onto the document of the idle pane, at its start.
    pub fn register_conn_view(&mut self, conn_id: u64)
        requires
            old(self).wf(),
            old(self).next_pane < u64::MAX,
            !old(self).conn_views@.contains_key(conn_id),
        ensures
            final(self).wf(),
            *final(self) == (Daemon {
                editor: final(self).editor,
                conn_views: final(self).conn_views,
                next_pane: (old(self).next_pane + 1) as u64,
                ..*old(self)
            }),
            final(self).editor@ == old(self).editor@.with_pane(
                PaneView {
                    id: old(self).next_pane,
                    doc: old(self).editor@.pane(old(self).idle_view).doc,
                    selection: one_range(0, 0),
                    first_line: 0,
                },
            ),
            final(self).conn_views@ == old(self).conn_views@.insert(
                conn_id,
                ClientView { view_id: old(self).next_pane, viewport: DEFAULT_VIEWPORT },
            ),
    {
        broadcast use vstd::std_specs::hash::group_hash_axioms;

        proof {
            pane_ok(self.editor@, self.idle_view);
            next_pane_is_new(
                self.editor@,
                self.conn_views@,
                self.idle_view,
                self.next_pane,
            );
        }
        let doc = self.editor.pane(self.idle_view).doc;
        let id = self.next_pane;
        let pane = Pane { id, doc, selection: Selection::single(0, 0), first_line: 0 };
        let ghost p = pane@;
        let ghost before = self.editor@;
        let ghost conns = self.conn_views@;
        proof {
            with_pane_laws(before, p);
        }
        self.editor.add_pane(pane);
        self.next_pane = id + 1;
        self.conn_views.insert(conn_id, ClientView { view_id: id, viewport: DEFAULT_VIEWPORT });
        proof {
            let e = self.editor@;
            let now = self.conn_views@;
            assert forall|i: int| 0 <= i < e.panes.len() implies (#[trigger] e.panes[i]).id
                < self.next_pane by {
                if i < before.panes.len() {
                    assert(e.panes[i] == before.panes[i]);
                }
            }
            assert forall|c: u64| #[trigger] now.contains_key(c) implies e.has_pane(
                now[c].view_id,
            ) && now[c].view_id != self.idle_view && now[c].viewport
                <= crate::daemon::MAX_VIEWPORT_HEIGHT by {
                if c != conn_id {
                    assert(conns.contains_key(c));
                    assert(before.has_pane(conns[c].view_id));
                    pane_ok(before, conns[c].view_id);
                }
            }
            assert forall|c: u64, d: u64|
                c != d && #[trigger] now.contains_key(c) && #[trigger] now.contains_key(
                    d,
                ) implies now[c].view_id != now[d].view_id by {
                if c != conn_id {
                    assert(conns.contains_key(c));
                    assert(before.has_pane(conns[c].view_id));
                }
                if d != conn_id {
                    assert(conns.contains_key(d));
                    assert(before.has_pane(conns[d].view_id));
                }
            }
            assert(e.has_pane(self.idle_view)) by {
                assert(before.has_pane(self.idle_view));
                assert(self.idle_view != id);
            }
        }
    }

    /// Takes a connection's pane away. If the focus was on it, it goes to the idle pane.
    pub fn drop_conn_view(&mut self, conn_id: u64)
        requires
            old(self).wf(),
        ensures
            final(self).wf(),
            !old(self).conn_views@.contains_key(conn_id) ==> *final(self) == *old(self),
            old(self).conn_views@.contains_key(conn_id) ==> {
                let gone = old(self).conn_views@[conn_id].view_id;
                &&& *final(self) == (Daemon {
                    editor: final(self).editor,
                    conn_views: final(self).conn_views,
                    ..*old(self)
                })
                &&& final(self).conn_views@ == old(self).conn_views@.remove(conn_id)
                &&& final(self).editor@ == if old(self).editor@.focused == gone {
                    old(self).editor@.focus(old(self).idle_view).without_pane(gone)
                } else {
                    old(self).editor@.without_pane(gone)
                }
            },
    {
        broadcast use vstd::std_specs::hash::group_hash_axioms;

        let view_id = match self.conn_views.get(&conn_id) {
            Some(v) => v.view_id,
            None => {
                return;
            },
        };
        let ghost conns = self.conn_views@;
        assert(conns.contains_key(conn_id));
        if self.editor.focused == view_id {
            self.editor.set_focused(self.idle_view);
        }
        let ghost before = self.editor@;
        proof {
            assert(before.has_pane(view_id)) by {
                assert(old(self).editor@.has_pane(view_id));
            }
            without_pane_laws(before, view_id);
        }
        self.editor.remove_pane(view_id);
        self.conn_views.remove(&conn_id);
        proof {
            let e = self.editor@;
            let now = self.conn_views@;
            let k = pane_from(before.panes, view_id, 0);
            pane_from_bounds(before.panes, view_id, 0);
            assert forall|i: int| 0 <= i < e.panes.len() implies (#[trigger] e.panes[i]).id
                < self.next_pane by {
                let j = if i < k { i } else { i + 1 };
                assert(e.panes[i] == before.panes[j]);
                assert(before.panes[j] == old(self).editor@.panes[j]);
            }
            assert forall|c: u64| #[trigger] now.contains_key(c) implies e.has_pane(
                now[c].view_id,
            ) && now[c].view_id != self.idle_view && now[c].viewport
                <= crate::daemon::MAX_VIEWPORT_HEIGHT by {
                assert(conns.contains_key(c));
                assert(old(self).editor@.has_pane(conns[c].view_id));
                assert(before.has_pane(conns[c].view_id));
                assert(conns[c].view_id != view_id);
            }
            assert forall|c: u64, d: u64|
                c != d && #[trigger] now.contains_key(c) && #[trigger] now.contains_key(
                    d,
                ) implies now[c].view_id != now[d].view_id by {
                assert(conns.contains_key(c));
                assert(conns.contains_key(d));
            }
            assert(before.has_pane(self.idle_view));
            assert(e.has_pane(self.idle_view));
        }
    }

    /// Closes the insert session and goes to another mode: the one place where a session ends. The
    /// undo history has to close its group.
    pub fn close_insert_session(&mut self, mode: Mode)
        requires
            old(self).wf(),
            mode != Mode::Insert,
        ensures
            final(self).wf(),
            *final(self) == (Daemon {
                editor: final(self).editor,
                insert_owner: None,
                ..*old(self)
            }),
            final(self).editor@ == session_closed(old(self).editor@, mode),
    {
        let ghost before = self.editor@;
        self.editor.set_group(false);
        self.editor.set_mode(mode);
        self.insert_owner = None;
        proof {
            panes_ok_same_ids(
                before,
                self.editor@,
                self.conn_views@,
                self.idle_view,
                self.next_pane,
            );
        }
    }

    /// Closes an insert session that another connection owns, so that no undo group mixes the
    /// edits of two clients. Says whether it did; the undo history then has to close its group.
    pub fn preempt(&mut self, conn_id: u64) -> (r: bool)
        requires
            old(self).wf(),
        ensures
            final(self).wf(),
            r == foreign_session(*old(self), conn_id),
            !foreign_session(*final(self), conn_id),
            !r ==> *final(self) == *old(self),
            r ==> {
                &&& *final(self) == (Daemon {
                    editor: final(self).editor,
                    insert_owner: None,
                    ..*old(self)
                })
                &&& final(self).editor@ == session_closed(old(self).editor@, Mode::Normal)
            },
    {
        match self.insert_owner {
            Some(owner) => {
                if owner != conn_id && self.editor.mode == Mode::Insert {
                    self.close_insert_session(Mode::Normal);
                    return true;
                }
                false
            },
            None => false,
        }
    }

    /// Opens an insert session for a connection, or takes it over from another. Says what the undo
    /// history has to do.
    pub fn enter_insert(&mut self, conn_id: u64) -> (r: GroupChange)
        requires
            old(self).wf(),
        ensures
            final(self).wf(),
            *final(self) == (Daemon {
                editor: final(self).editor,
                insert_owner: Some(conn_id),
                ..*old(self)
            }),
            final(self).editor@ == old(self).editor@.with_group(true).in_mode(Mode::Insert),
            r == entering(*old(self), conn_id),
    {
        let ghost before = self.editor@;
        let change = if self.editor.mode != Mode::Insert {
            GroupChange::Begin
        } else {
            match self.insert_owner {
                Some(o) => {
                    if o == conn_id {
                        GroupChange::Keep
                    } else {
                        GroupChange::Restart
                    }
                },
                None => GroupChange::Restart,
            }
        };
        self.editor.set_group(true);
        self.insert_owner = Some(conn_id);
        self.editor.set_mode(Mode::Insert);
        proof {
            panes_ok_same_ids(
                before,
                self.editor@,
                self.conn_views@,
                self.idle_view,
                self.next_pane,
            );
        }
        change
    }

    /// Takes in a new connection: one with a screen gets a pane and is counted, and each leaves the
    /// name it gave itself.
    pub fn connect(&mut self, conn_id: u64, hello: &Hello)
        requires
            old(self).wf(),
            old(self).next_pane < u64::MAX,
            !old(self).conn_views@.contains_key(conn_id),
        ensures
            final(self).wf(),
            *final(self) == (Daemon {
                editor: final(self).editor,
                conn_views: final(self).conn_views,
                next_pane: final(self).next_pane,
                interactive_clients: final(self).interactive_clients,
                conn_names: final(self).conn_names,
                ..*old(self)
            }),
            final(self).conn_names@ == old(self).conn_names@.insert(conn_id, hello.name),
            hello.kind == ClientKind::Headless ==> final(self).editor@ == old(self).editor@
                && final(self).conn_views@ == old(self).conn_views@
                && final(self).interactive_clients@ == old(self).interactive_clients@
                && final(self).next_pane == old(self).next_pane,
            hello.kind == ClientKind::Interactive ==> {
                &&& final(self).next_pane == old(self).next_pane + 1
                &&& final(self).interactive_clients@ == old(self).interactive_clients@.insert(
                    conn_id,
                )
                &&& final(self).conn_views@ == old(self).conn_views@.insert(
                    conn_id,
                    ClientView { view_id: old(self).next_pane, viewport: DEFAULT_VIEWPORT },
                )
                &&& final(self).editor@ == old(self).editor@.with_pane(
                    PaneView {
                        id: old(self).next_pane,
                        doc: old(self).editor@.pane(old(self).idle_view).doc,
                        selection: one_range(0, 0),
                        first_line: 0,
                    },
                )
            },
    {
        broadcast use vstd::std_specs::hash::group_hash_axioms;

        if hello.kind == ClientKind::Interactive {
            self.register_conn_view(conn_id);
            self.interactive_clients.insert(conn_id);
        }
        self.conn_names.insert(conn_id, hello.name.clone());
    }

    /// Cleans up after a connection. An insert session is closed only if the connection owned it.
    /// When the last connection with a screen goes and had asked for it, the idle pane goes back to
    /// the start, which is recorded. Says whether the undo history has to close its group.
    pub fn on_client_disconnect(&mut self, conn_id: u64, kind: ClientKind, reset_cursor: bool) -> (r:
        bool)
        requires
            old(self).wf(),
            old(self).log@.room(1),
        ensures
            final(self).wf(),
            *final(self) == (Daemon {
                editor: final(self).editor,
                insert_owner: final(self).insert_owner,
                interactive_clients: final(self).interactive_clients,
                log: final(self).log,
                ..*old(self)
            }),
            r == (old(self).insert_owner == Some(conn_id)),
            final(self).insert_owner == if r {
                None::<u64>
            } else {
                old(self).insert_owner
            },
            final(self).interactive_clients@ == if kind == ClientKind::Interactive {
                old(self).interactive_clients@.remove(conn_id)
            } else {
                old(self).interactive_clients@
            },
            ({
                let closed = if r {
                    session_closed(old(self).editor@, Mode::Normal)
                } else {
                    old(self).editor@
                };
                if kind == ClientKind::Interactive && reset_cursor
                    && final(self).interactive_clients@.len() == 0 {
                    &&& final(self).editor@ == closed.placed(
                        old(self).idle_view,
                        one_range(0, 0),
                        0,
                    )
                    &&& final(self).log@ == old(self).log@.event(
                        EventSource::External,
                        EventKind::SelectionReset,
                        None,
                        None,
                    )
                } else {
                    &&& final(self).editor@ == closed
                    &&& final(self).log == old(self).log
                }
            }),
    {
        broadcast use vstd::std_specs::hash::group_hash_axioms;

        if kind == ClientKind::Interactive {
            self.interactive_clients.remove(&conn_id);
        }
        let mut closed = false;
        match self.insert_owner {
            Some(owner) => {
                if owner == conn_id && self.editor.mode == Mode::Insert {
                    self.close_insert_session(Mode::Normal);
                    closed = true;
                }
            },
            None => {},
        }
        if kind == ClientKind::Interactive && reset_cursor && self.interactive_clients.len() == 0 {
            let ghost before = self.editor@;
            proof {
                placed_ok(before, self.idle_view, one_range(0, 0), 0);
            }
            self.editor.place(self.idle_view, Selection::single(0, 0), 0);
            proof {
                let e = self.editor@;
                pane_from_bounds(before.panes, self.idle_view, 0);
                assert forall|i: int| 0 <= i < before.panes.len() implies (
                #[trigger] before.panes[i]).id == e.panes[i].id by {}
                panes_ok_same_ids(
                    before,
                    e,
                    self.conn_views@,
                    self.idle_view,
                    self.next_pane,
                );
            }
            self.log.record_event(EventSource::External, EventKind::SelectionReset, None, None);
        }
        closed
    }

    /// All that happens when a connection ends: its pane and its name go, and it is cleaned up
    /// after. Says whether the undo history has to close its group.
    pub fn disconnect(&mut self, conn_id: u64, kind: ClientKind, reset_cursor: bool) -> (r: bool)
        requires
            old(self).wf(),
            old(self).log@.room(1),
        ensures
            final(self).wf(),
            r == (old(self).insert_owner == Some(conn_id)),
            final(self).conn_views@ == old(self).conn_views@.remove(conn_id),
            final(self).conn_names@ == old(self).conn_names@.remove(conn_id),
            final(self).insert_owner == if r {
                None::<u64>
            } else {
                old(self).insert_owner
            },
            final(self).interactive_clients@ == if kind == ClientKind::Interactive {
                old(self).interactive_clients@.remove(conn_id)
            } else {
                old(self).interactive_clients@
            },
            ({
                let closed = if r {
                    session_closed(without_view(*old(self), conn_id), Mode::Normal)
                } else {
                    without_view(*old(self), conn_id)
                };
                if kind == ClientKind::Interactive && reset_cursor
                    && final(self).interactive_clients@.len() == 0 {
                    &&& final(self).editor@ == closed.placed(
                        old(self).idle_view,
                        one_range(0, 0),
                        0,
                    )
                    &&& final(self).log@ == old(self).log@.event(
                        EventSource::External,
                        EventKind::SelectionReset,
                        None,
                        None,
                    )
                } else {
                    final(self).editor@ == closed && final(self).log == old(self).log
                }
            }),
            *final(self) == (Daemon {
                editor: final(self).editor,
                conn_views: final(self).conn_views,
                conn_names: final(self).conn_names,
                insert_owner: final(self).insert_owner,
                interactive_clients: final(self).interactive_clients,
                log: final(self).log,
                ..*old(self)
            }),
    {
        broadcast use vstd::std_specs::hash::group_hash_axioms;

        self.drop_conn_view(conn_id);
        assert(self.conn_views@ =~= old(self).conn_views@.remove(conn_id));
        self.conn_names.remove(&conn_id);
        self.on_client_disconnect(conn_id, kind, reset_cursor)
    }
}

/// What the undo history has to do with its group of edits.
#[derive(Clone, Copy, Debug, PartialEq, Eq, Structural)]
pub enum GroupChange {
    Keep,
    Begin,
    End,
    Restart,
}

/// What entering insert mode does to the undo group: a new session begins one, taking a session
/// over ends the old one and begins another, and one's own session goes on.
pub open spec fn entering(d: Daemon, conn_id: u64) -> GroupChange {
    if d.editor@.mode != Mode::Insert {
        GroupChange::Begin
    } else if d.insert_owner == Some(conn_id) {
        GroupChange::Keep
    } else {
        GroupChange::Restart
    }
}

} // verus!
