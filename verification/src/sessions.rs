//! The state service: the context of each reader session.

use crate::types::{default_context, Context, ContextView, StateRequest, StateResponse};
use std::collections::HashMap;
use vstd::prelude::*;

verus! {

broadcast use vstd::std_specs::hash::group_hash_axioms;

/// The contexts of the sessions that have selected a group, by session number.
pub struct SessionTable {
    sessions: HashMap<u64, Context>,
}

impl View for SessionTable {
    type V = Map<u64, ContextView>;

    closed spec fn view(&self) -> Map<u64, ContextView> {
        self.sessions@.map_values(|c: Context| c@)
    }
}

/// The context of `session`: the stored one, or the default context for a
/// session that has selected nothing yet.
pub open spec fn context_of(table: Map<u64, ContextView>, session: u64) -> ContextView {
    if table.contains_key(session) {
        table[session]
    } else {
        default_context()
    }
}

/// The table after `session` selects the group `name`: the session's
/// context names the new group, and its article pointer starts over at 0.
pub open spec fn select_group_spec(table: Map<u64, ContextView>, session: u64, name: Seq<char>) -> Map<
    u64,
    ContextView,
> {
    table.insert(session, ContextView { group: name, article_pointer: 0 })
}

/// The table after `session` moves to its next article: a stored context's
/// pointer goes up by one, unless it is at its largest value; a session
/// without a context is left as it is.
pub open spec fn next_spec(table: Map<u64, ContextView>, session: u64) -> Map<u64, ContextView> {
    if table.contains_key(session) && table[session].article_pointer < usize::MAX {
        table.insert(
            session,
            ContextView {
                group: table[session].group,
                article_pointer: (table[session].article_pointer + 1) as usize,
            },
        )
    } else {
        table
    }
}

/// The table after `session` moves to its previous article: a stored
/// context's pointer goes down by one, unless it is 0; a session without a
/// context is left as it is.
pub open spec fn last_spec(table: Map<u64, ContextView>, session: u64) -> Map<u64, ContextView> {
    if table.contains_key(session) && table[session].article_pointer > 0 {
        table.insert(
            session,
            ContextView {
                group: table[session].group,
                article_pointer: (table[session].article_pointer - 1) as usize,
            },
        )
    } else {
        table
    }
}

impl SessionTable {
    /// A table with no session.
    pub fn new() -> (t: SessionTable)
        ensures
            t@ == Map::<u64, ContextView>::empty(),
    {
        let t = SessionTable { sessions: HashMap::new() };
        assert(t@ =~= Map::<u64, ContextView>::empty());
        t
    }

    /// Selects the group `name` for `session`.
    pub fn select_group(&mut self, session: u64, name: String)
        ensures
            final(self)@ == select_group_spec(old(self)@, session, name@),
    {
        self.sessions.insert(session, Context { group: name, article_pointer: 0 });
        assert(self@ =~= select_group_spec(old(self)@, session, name@));
    }

    /// Moves the article pointer of `session` one article forward, or back
    /// where `forward` is false.
    fn move_pointer(&mut self, session: u64, forward: bool)
        ensures
            final(self)@ == (if forward {
                next_spec(old(self)@, session)
            } else {
                last_spec(old(self)@, session)
            }),
    {
        let current = match self.sessions.get(&session) {
            Some(c) => Some(c.clone()),
            None => None,
        };
        if let Some(c) = current {
            if forward && c.article_pointer < usize::MAX {
                self.sessions.insert(
                    session,
                    Context { group: c.group, article_pointer: c.article_pointer + 1 },
                );
            } else if !forward && c.article_pointer > 0 {
                self.sessions.insert(
                    session,
                    Context { group: c.group, article_pointer: c.article_pointer - 1 },
                );
            }
        }
        assert(self@ =~= (if forward {
            next_spec(old(self)@, session)
        } else {
            last_spec(old(self)@, session)
        }));
    }

    /// The context of `session`.
    pub fn context(&self, session: u64) -> (c: Context)
        ensures
            c@ == context_of(self@, session),
    {
        match self.sessions.get(&session) {
            Some(c) => c.clone(),
            None => Context::default(),
        }
    }

    /// Answers a request of `session`: selecting a group is acknowledged
    /// with `Nil`; asking for the context, or for the current article's
    /// status, is answered with the context; moving to the next or the
    /// previous article is answered with the context after the move.
    pub fn handle(&mut self, session: u64, request: StateRequest) -> (resp: StateResponse)
        ensures
            match request {
                StateRequest::Group(name) => resp is Nil && final(self)@ == select_group_spec(
                    old(self)@,
                    session,
                    name@,
                ),
                StateRequest::Next => final(self)@ == next_spec(old(self)@, session) && (resp matches StateResponse::Context(c) && c@
                    == context_of(final(self)@, session)),
                StateRequest::Last => final(self)@ == last_spec(old(self)@, session) && (resp matches StateResponse::Context(c) && c@
                    == context_of(final(self)@, session)),
                _ => final(self)@ == old(self)@ && (resp matches StateResponse::Context(c) && c@
                    == context_of(old(self)@, session)),
            },
    {
        match request {
            StateRequest::Group(name) => {
                self.select_group(session, name);
                StateResponse::Nil
            },
            StateRequest::Next => {
                self.move_pointer(session, true);
                StateResponse::Context(self.context(session))
            },
            StateRequest::Last => {
                self.move_pointer(session, false);
                StateResponse::Context(self.context(session))
            },
            _ => StateResponse::Context(self.context(session)),
        }
    }
}

/// Law: after a session selects a group, its context names that group with
/// the article pointer at 0, while every other session's context is as it
/// was.
pub proof fn lemma_context_after_select(
    table: Map<u64, ContextView>,
    session: u64,
    name: Seq<char>,
    other: u64,
)
    ensures
        context_of(select_group_spec(table, session, name), session) == (ContextView {
            group: name,
            article_pointer: 0,
        }),
        other != session ==> context_of(select_group_spec(table, session, name), other)
            == context_of(table, other),
{
}

/// Law: selecting the same group again changes nothing.
pub proof fn lemma_select_idempotent(table: Map<u64, ContextView>, session: u64, name: Seq<char>)
    ensures
        select_group_spec(select_group_spec(table, session, name), session, name)
            == select_group_spec(table, session, name),
{
    assert(select_group_spec(select_group_spec(table, session, name), session, name)
        =~= select_group_spec(table, session, name));
}

/// Law: moving to the next article raises a stored pointer by one, and
/// moving to the previous one lowers it by one; where the pointer cannot
/// move that way, or the session has no context, the table stays as it
/// is.  Moving to the next article and back again restores the table where
/// the pointer could move forward, and moving back and forward again
/// restores it where the pointer could move back; moving never changes the
/// selected group, nor any other session.
pub proof fn lemma_next_last_inverse(table: Map<u64, ContextView>, session: u64, other: u64)
    ensures
        table.contains_key(session) && table[session].article_pointer < usize::MAX ==> last_spec(
            next_spec(table, session),
            session,
        ) == table,
        table.contains_key(session) && table[session].article_pointer > 0 ==> next_spec(
            last_spec(table, session),
            session,
        ) == table,
        table.contains_key(session) && table[session].article_pointer < usize::MAX ==> context_of(
            next_spec(table, session),
            session,
        ).article_pointer == table[session].article_pointer + 1,
        table.contains_key(session) && table[session].article_pointer > 0 ==> context_of(
            last_spec(table, session),
            session,
        ).article_pointer == table[session].article_pointer - 1,
        !(table.contains_key(session) && table[session].article_pointer < usize::MAX) ==> next_spec(
            table,
            session,
        ) == table,
        !(table.contains_key(session) && table[session].article_pointer > 0) ==> last_spec(
            table,
            session,
        ) == table,
        context_of(next_spec(table, session), session).group == context_of(table, session).group,
        context_of(last_spec(table, session), session).group == context_of(table, session).group,
        other != session ==> context_of(next_spec(table, session), other) == context_of(table, other),
        other != session ==> context_of(last_spec(table, session), other) == context_of(table, other),
{
    if table.contains_key(session) && table[session].article_pointer < usize::MAX {
        assert(last_spec(next_spec(table, session), session) =~= table);
    }
    if table.contains_key(session) && table[session].article_pointer > 0 {
        assert(next_spec(last_spec(table, session), session) =~= table);
    }
}

} // verus!
