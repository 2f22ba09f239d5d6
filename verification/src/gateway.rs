//! The gateway's side of the news protocol, as a state machine.
//!
//! The gateway greets a reader, then reads the reader's lines one at a time.
//! A line with a command makes it call a back-end service (the group service
//! for `LIST`, the state service for `GROUP` and `ARTICLE`, then the file
//! service for `ARTICLE`); the service's answer becomes the reply to the
//! reader, after which the gateway reads the next line.  The gateway answers
//! `HELP` itself, and answers `QUIT` itself and then ends the connection.
//! Multi-line replies end with a line holding a single dot.  The connection
//! runs `step` in a loop: it performs each action and hands back the event
//! that the action produced.

use crate::command::{
    article_number, command_of, digits_value, lemma_decimal_reads_back, parse_article_number,
    recognize, Command, CommandView,
};
use crate::text::{decimal, push_char, push_decimal, push_str};
use crate::sessions::{context_of, select_group_spec};
use crate::types::{Context, ContextView, FileResponse, Group};
use vstd::prelude::*;
use vstd::string::*;

verus! {

broadcast use vstd::string::group_string_axioms;

/// The line that greets a reader.
pub open spec fn greeting_text() -> Seq<char> {
    "200 amazing news server is ready\r\n"@
}

/// The line that describes `g` in the reply to `LIST`: its name, the
/// numbers of its last and first articles, and whether posting is allowed.
pub open spec fn group_line(g: Group) -> Seq<char> {
    g.name@ + seq![' '] + decimal(g.last as nat) + seq![' '] + decimal(g.first as nat) + seq![
        ' ',
        if g.posting_allowed {
            'y'
        } else {
            'n'
        },
        '\r',
        '\n',
    ]
}

/// The line with a single dot that ends a multi-line reply.
pub open spec fn end_of_text() -> Seq<char> {
    seq!['.', '\r', '\n']
}

/// The lines of all the groups `gs`, in order.
pub open spec fn group_lines(gs: Seq<Group>) -> Seq<char>
    decreases gs.len(),
{
    if gs.len() == 0 {
        Seq::empty()
    } else {
        group_lines(gs.drop_last()) + group_line(gs.last())
    }
}

/// The reply to `LIST`: the status line, one line per group, and the line
/// with a single dot.
pub open spec fn list_text(gs: Seq<Group>) -> Seq<char> {
    "215 list of newsgroups follows\r\n"@ + group_lines(gs) + end_of_text()
}

/// The reply to `GROUP` once the group `name` is selected.
pub open spec fn selected_text(name: Seq<char>) -> Seq<char> {
    "211 10 10 "@ + name + " selected\r\n"@
}

/// The reply to `ARTICLE` that carries article `number`, whose text is
/// `text`.
pub open spec fn article_text(number: u64, text: Seq<char>) -> Seq<char> {
    "220 "@ + decimal(number as nat) + " <4105@ucbvax.ARPA> Article retrieved, text follows\r\n"@
        + text + "\r\n.\r\n"@
}

/// The reply to `ARTICLE` when the group holds no article with the number.
pub open spec fn no_article_text() -> Seq<char> {
    "423 no such article number in this group\r\n"@
}

/// The reply to `HELP`.
pub open spec fn help_text() -> Seq<char> {
    "100 help text follows\r\nARTICLE <number>\r\nGROUP <newsgroup>\r\nHELP\r\nLIST\r\nQUIT\r\n.\r\n"@
}

/// The reply to `QUIT`, after which the gateway ends the connection.
pub open spec fn quit_text() -> Seq<char> {
    "205 closing connection - goodbye!\r\n"@
}

/// The greeting.
pub fn greeting() -> (s: String)
    ensures
        s@ == greeting_text(),
{
    String::from_str("200 amazing news server is ready\r\n")
}

/// Appends the line of `g` to `s`.
fn push_group_line(s: &mut String, g: &Group)
    ensures
        final(s)@ == old(s)@ + group_line(*g),
{
    push_str(s, g.name.as_str());
    push_char(s, ' ');
    push_decimal(s, g.last as u64);
    push_char(s, ' ');
    push_decimal(s, g.first as u64);
    push_char(s, ' ');
    push_char(
        s,
        if g.posting_allowed {
            'y'
        } else {
            'n'
        },
    );
    push_char(s, '\r');
    push_char(s, '\n');
    assert(s@ =~= old(s)@ + group_line(*g));
}

/// The reply to `LIST` for the groups `gs`.
pub fn list_reply(gs: &Vec<Group>) -> (s: String)
    ensures
        s@ == list_text(gs@),
{
    let mut s = String::from_str("215 list of newsgroups follows\r\n");
    let ghost head = s@;
    let mut i: usize = 0;
    while i < gs.len()
        invariant
            i <= gs@.len(),
            head == "215 list of newsgroups follows\r\n"@,
            s@ == head + group_lines(gs@.subrange(0, i as int)),
        decreases gs@.len() - i,
    {
        push_group_line(&mut s, &gs[i]);
        assert(gs@.subrange(0, i + 1).drop_last() =~= gs@.subrange(0, i as int));
        i = i + 1;
        assert(s@ =~= head + group_lines(gs@.subrange(0, i as int)));
    }
    assert(gs@.subrange(0, gs@.len() as int) =~= gs@);
    let ghost body = s@;
    push_char(&mut s, '.');
    push_char(&mut s, '\r');
    push_char(&mut s, '\n');
    assert(s@ =~= body + end_of_text());
    s
}

/// The reply to `GROUP` once the group `name` is selected.
pub fn selected_reply(name: &str) -> (s: String)
    ensures
        s@ == selected_text(name@),
{
    let mut s = String::from_str("211 10 10 ");
    push_str(&mut s, name);
    push_str(&mut s, " selected\r\n");
    s
}

/// The reply to `ARTICLE` that carries article `number`, whose text is
/// `text`.
pub fn article_reply(number: u64, text: &str) -> (s: String)
    ensures
        s@ == article_text(number, text@),
{
    let mut s = String::from_str("220 ");
    push_decimal(&mut s, number);
    push_str(&mut s, " <4105@ucbvax.ARPA> Article retrieved, text follows\r\n");
    push_str(&mut s, text);
    push_str(&mut s, "\r\n.\r\n");
    s
}

/// The reply to `ARTICLE` when the group holds no article with the number.
pub fn no_article_reply() -> (s: String)
    ensures
        s@ == no_article_text(),
{
    String::from_str("423 no such article number in this group\r\n")
}

/// The reply to `HELP`.
pub fn help_reply() -> (s: String)
    ensures
        s@ == help_text(),
{
    String::from_str(
        "100 help text follows\r\nARTICLE <number>\r\nGROUP <newsgroup>\r\nHELP\r\nLIST\r\nQUIT\r\n.\r\n",
    )
}

/// The reply to `QUIT`.
pub fn quit_reply() -> (s: String)
    ensures
        s@ == quit_text(),
{
    String::from_str("205 closing connection - goodbye!\r\n")
}

/// Where the gateway stands on a connection.
pub enum GatewayState {
    /// Waiting for the reader's next line.
    Ready,
    /// Waiting for the group service's list of groups.
    AwaitingGroups,
    /// Waiting for the state service to select the group `name`.
    AwaitingSelection { name: String },
    /// Waiting for the session's context, to fetch the article whose number
    /// `digits` write from its group.
    AwaitingContext { digits: Vec<char> },
    /// Waiting for the file service's article `number`.
    AwaitingArticle { number: u64 },
    /// The connection is over.
    Closed,
}

/// What happened since the last action.
pub enum GatewayEvent {
    /// The reader sent this line.
    Line(String),
    /// The reader closed its side of the connection.
    EndOfInput,
    /// The group service listed these groups.
    Groups(Vec<Group>),
    /// The state service selected the group.
    Selected,
    /// The state service sent the session's context.
    Context(Context),
    /// The file service answered.
    Article(FileResponse),
}

/// Why the gateway gives up a connection.
#[derive(Debug, PartialEq, Eq)]
pub enum GatewayError {
    /// The number of an `ARTICLE` command does not fit in 64 bits, or has
    /// digits outside ASCII.
    BadArticleNumber,
    /// An event that the current state does not wait for.
    UnexpectedEvent,
}

/// What the connection does next.
pub enum GatewayAction {
    /// Send this text to the reader, then read the next line.
    Reply(String),
    /// Send this text to the reader, then end the connection normally.
    ReplyAndClose(String),
    /// Read the next line.
    ReadLine,
    /// Ask the group service for the list of groups.
    ListGroups,
    /// Ask the state service to select this group for the session.
    SelectGroup(String),
    /// Ask the state service for the session's context.
    FetchContext,
    /// Ask the file service for this article.
    FetchArticle { group: String, number: u64 },
    /// End the connection normally.
    Close,
    /// End the connection with this error.
    Fail(GatewayError),
}

pub enum StateView {
    Ready,
    AwaitingGroups,
    AwaitingSelection { name: Seq<char> },
    AwaitingContext { digits: Seq<char> },
    AwaitingArticle { number: u64 },
    Closed,
}

/// What the file service's answer to an article request says.
pub enum ArticleAnswer {
    /// The article's text.
    Text(Seq<char>),
    /// There is no such article.
    Missing,
    /// Some other kind of answer.
    Other,
}

pub enum EventView {
    Line(Seq<char>),
    EndOfInput,
    Groups(Seq<Group>),
    Selected,
    Context(ContextView),
    Article(ArticleAnswer),
}

pub enum ActionView {
    Reply(Seq<char>),
    ReplyAndClose(Seq<char>),
    ReadLine,
    ListGroups,
    SelectGroup(Seq<char>),
    FetchContext,
    FetchArticle { group: Seq<char>, number: u64 },
    Close,
    Fail(GatewayError),
}

impl View for GatewayState {
    type V = StateView;

    open spec fn view(&self) -> StateView {
        match self {
            GatewayState::Ready => StateView::Ready,
            GatewayState::AwaitingGroups => StateView::AwaitingGroups,
            GatewayState::AwaitingSelection { name } => StateView::AwaitingSelection {
                name: name@,
            },
            GatewayState::AwaitingContext { digits } => StateView::AwaitingContext {
                digits: digits@,
            },
            GatewayState::AwaitingArticle { number } => StateView::AwaitingArticle {
                number: *number,
            },
            GatewayState::Closed => StateView::Closed,
        }
    }
}

impl View for GatewayEvent {
    type V = EventView;

    open spec fn view(&self) -> EventView {
        match self {
            GatewayEvent::Line(l) => EventView::Line(l@),
            GatewayEvent::EndOfInput => EventView::EndOfInput,
            GatewayEvent::Groups(gs) => EventView::Groups(gs@),
            GatewayEvent::Selected => EventView::Selected,
            GatewayEvent::Context(c) => EventView::Context(c@),
            GatewayEvent::Article(r) => EventView::Article(
                match r {
                    FileResponse::Article(t) => ArticleAnswer::Text(t@),
                    FileResponse::NoSuchArticle => ArticleAnswer::Missing,
                    _ => ArticleAnswer::Other,
                },
            ),
        }
    }
}

impl View for GatewayAction {
    type V = ActionView;

    open spec fn view(&self) -> ActionView {
        match self {
            GatewayAction::Reply(t) => ActionView::Reply(t@),
            GatewayAction::ReplyAndClose(t) => ActionView::ReplyAndClose(t@),
            GatewayAction::ReadLine => ActionView::ReadLine,
            GatewayAction::ListGroups => ActionView::ListGroups,
            GatewayAction::SelectGroup(n) => ActionView::SelectGroup(n@),
            GatewayAction::FetchContext => ActionView::FetchContext,
            GatewayAction::FetchArticle { group, number } => ActionView::FetchArticle {
                group: group@,
                number: *number,
            },
            GatewayAction::Close => ActionView::Close,
            GatewayAction::Fail(e) => ActionView::Fail(*e),
        }
    }
}

/// How the gateway starts a connection: it greets the reader, then reads.
pub open spec fn start_spec() -> (StateView, ActionView) {
    (StateView::Ready, ActionView::Reply(greeting_text()))
}

/// The gateway's next state and action, from its state and an event.
pub open spec fn step_spec(s: StateView, e: EventView) -> (StateView, ActionView) {
    match (s, e) {
        (StateView::Closed, _) => (StateView::Closed, ActionView::Close),
        (StateView::Ready, EventView::Line(l)) => match command_of(l) {
            None => (StateView::Ready, ActionView::ReadLine),
            Some(CommandView::List) => (StateView::AwaitingGroups, ActionView::ListGroups),
            Some(CommandView::Group { name }) => (
                StateView::AwaitingSelection { name },
                ActionView::SelectGroup(name),
            ),
            Some(CommandView::Article { number }) => (
                StateView::AwaitingContext { digits: number },
                ActionView::FetchContext,
            ),
            Some(CommandView::Help) => (StateView::Ready, ActionView::Reply(help_text())),
            Some(CommandView::Quit) => (StateView::Closed, ActionView::ReplyAndClose(quit_text())),
        },
        (StateView::Ready, EventView::EndOfInput) => (StateView::Closed, ActionView::Close),
        (StateView::AwaitingGroups, EventView::Groups(gs)) => (
            StateView::Ready,
            ActionView::Reply(list_text(gs)),
        ),
        (StateView::AwaitingSelection { name }, EventView::Selected) => (
            StateView::Ready,
            ActionView::Reply(selected_text(name)),
        ),
        (StateView::AwaitingContext { digits }, EventView::Context(c)) => match article_number(
            digits,
        ) {
            Some(n) => (
                StateView::AwaitingArticle { number: n },
                ActionView::FetchArticle { group: c.group, number: n },
            ),
            None => (StateView::Closed, ActionView::Fail(GatewayError::BadArticleNumber)),
        },
        (StateView::AwaitingArticle { number }, EventView::Article(r)) => match r {
            ArticleAnswer::Text(t) => (StateView::Ready, ActionView::Reply(article_text(number, t))),
            ArticleAnswer::Missing => (StateView::Ready, ActionView::Reply(no_article_text())),
            ArticleAnswer::Other => (StateView::Ready, ActionView::ReadLine),
        },
        _ => (StateView::Closed, ActionView::Fail(GatewayError::UnexpectedEvent)),
    }
}

/// The state and action a connection starts with.
pub fn start() -> (r: (GatewayState, GatewayAction))
    ensures
        (r.0@, r.1@) == start_spec(),
{
    (GatewayState::Ready, GatewayAction::Reply(greeting()))
}

/// The gateway's next state and action, from its state and an event.
pub fn step(state: GatewayState, event: GatewayEvent) -> (r: (GatewayState, GatewayAction))
    ensures
        (r.0@, r.1@) == step_spec(state@, event@),
{
    match state {
        GatewayState::Closed => (GatewayState::Closed, GatewayAction::Close),
        GatewayState::Ready => match event {
            GatewayEvent::Line(l) => match recognize(l.as_str()) {
                None => (GatewayState::Ready, GatewayAction::ReadLine),
                Some(Command::List) => (GatewayState::AwaitingGroups, GatewayAction::ListGroups),
                Some(Command::Group { name }) => {
                    let n2 = name.clone();
                    (GatewayState::AwaitingSelection { name }, GatewayAction::SelectGroup(n2))
                },
                Some(Command::Article { number }) => (
                    GatewayState::AwaitingContext { digits: number },
                    GatewayAction::FetchContext,
                ),
                Some(Command::Help) => (GatewayState::Ready, GatewayAction::Reply(help_reply())),
                Some(Command::Quit) => (
                    GatewayState::Closed,
                    GatewayAction::ReplyAndClose(quit_reply()),
                ),
            },
            GatewayEvent::EndOfInput => (GatewayState::Closed, GatewayAction::Close),
            _ => (GatewayState::Closed, GatewayAction::Fail(GatewayError::UnexpectedEvent)),
        },
        GatewayState::AwaitingGroups => match event {
            GatewayEvent::Groups(gs) => (GatewayState::Ready, GatewayAction::Reply(list_reply(&gs))),
            _ => (GatewayState::Closed, GatewayAction::Fail(GatewayError::UnexpectedEvent)),
        },
        GatewayState::AwaitingSelection { name } => match event {
            GatewayEvent::Selected => (
                GatewayState::Ready,
                GatewayAction::Reply(selected_reply(name.as_str())),
            ),
            _ => (GatewayState::Closed, GatewayAction::Fail(GatewayError::UnexpectedEvent)),
        },
        GatewayState::AwaitingContext { digits } => match event {
            GatewayEvent::Context(c) => match parse_article_number(&digits) {
                Some(n) => (
                    GatewayState::AwaitingArticle { number: n },
                    GatewayAction::FetchArticle { group: c.group, number: n },
                ),
                None => (GatewayState::Closed, GatewayAction::Fail(GatewayError::BadArticleNumber)),
            },
            _ => (GatewayState::Closed, GatewayAction::Fail(GatewayError::UnexpectedEvent)),
        },
        GatewayState::AwaitingArticle { number } => match event {
            GatewayEvent::Article(FileResponse::Article(t)) => (
                GatewayState::Ready,
                GatewayAction::Reply(article_reply(number, t.as_str())),
            ),
            GatewayEvent::Article(FileResponse::NoSuchArticle) => (
                GatewayState::Ready,
                GatewayAction::Reply(no_article_reply()),
            ),
            GatewayEvent::Article(_) => (GatewayState::Ready, GatewayAction::ReadLine),
            _ => (GatewayState::Closed, GatewayAction::Fail(GatewayError::UnexpectedEvent)),
        },
    }
}

/// Whether `t` ends with a line break.
pub open spec fn ends_with_crlf(t: Seq<char>) -> bool {
    t.len() >= 2 && t[t.len() - 2] == '\r' && t[t.len() - 1] == '\n'
}

/// Law: once a connection is over, it stays over, whatever happens.
pub proof fn lemma_closed_stays_closed(e: EventView)
    ensures
        step_spec(StateView::Closed, e) == (StateView::Closed, ActionView::Close),
{
}

/// Law: whenever the gateway replies to the reader or reads on without a
/// reply, it is ready for the reader's next line; whenever it replies and
/// closes, the connection is over.
pub proof fn lemma_ready_after_reply(s: StateView, e: EventView)
    ensures
        (step_spec(s, e).1 is Reply || step_spec(s, e).1 is ReadLine) ==> step_spec(s, e).0 is Ready,
        step_spec(s, e).1 is ReplyAndClose ==> step_spec(s, e).0 is Closed,
{
}

/// Law: `QUIT` is answered with the closing line, and ends the connection;
/// `HELP` is answered with the help text, and the gateway reads on.
pub proof fn lemma_quit_and_help(l: Seq<char>)
    ensures
        command_of(l) == Some(CommandView::Quit) ==> step_spec(StateView::Ready, EventView::Line(l))
            == (StateView::Closed, ActionView::ReplyAndClose(
            "205 closing connection - goodbye!\r\n"@,
        )),
        command_of(l) == Some(CommandView::Help) ==> step_spec(StateView::Ready, EventView::Line(l))
            == (StateView::Ready, ActionView::Reply(
            "100 help text follows\r\nARTICLE <number>\r\nGROUP <newsgroup>\r\nHELP\r\nLIST\r\nQUIT\r\n.\r\n"@,
        )),
{
}

/// The text a reply action sends, if it sends one.
pub open spec fn reply_of(a: ActionView) -> Seq<char> {
    match a {
        ActionView::Reply(t) => t,
        ActionView::ReplyAndClose(t) => t,
        _ => Seq::empty(),
    }
}

/// Law: the answers the gateway gives without a back-end service's data:
/// the greeting, the acknowledgement of a selected group (which names the
/// group), and the report of a missing article.
pub proof fn lemma_fixed_replies(name: Seq<char>, number: u64)
    ensures
        start_spec() == (StateView::Ready, ActionView::Reply(
            "200 amazing news server is ready\r\n"@,
        )),
        step_spec(StateView::AwaitingSelection { name }, EventView::Selected) == (
            StateView::Ready,
            ActionView::Reply("211 10 10 "@ + name + " selected\r\n"@),
        ),
        step_spec(StateView::AwaitingArticle { number }, EventView::Article(ArticleAnswer::Missing))
            == (StateView::Ready, ActionView::Reply(
            "423 no such article number in this group\r\n"@,
        )),
{
}

/// Law: the reply to `LIST` for no groups is the status line and the line
/// with a single dot; adding a group at the end of the list adds, just
/// before that dot line, one line with the group's name, the numbers of its
/// last and first articles (which read back as those numbers), and `y`
/// exactly when posting to it is allowed, `n` otherwise.
pub proof fn lemma_list_reply_by_group(gs: Seq<Group>, g: Group)
    ensures
        step_spec(StateView::AwaitingGroups, EventView::Groups(Seq::empty())) == (
            StateView::Ready,
            ActionView::Reply("215 list of newsgroups follows\r\n"@ + seq!['.', '\r', '\n']),
        ),
        step_spec(StateView::AwaitingGroups, EventView::Groups(gs)).0 == StateView::Ready,
        step_spec(StateView::AwaitingGroups, EventView::Groups(gs)).1 is Reply,
        ({
            let before = reply_of(step_spec(StateView::AwaitingGroups, EventView::Groups(gs)).1);
            let after = reply_of(
                step_spec(StateView::AwaitingGroups, EventView::Groups(gs.push(g))).1,
            );
            &&& before.len() >= 3
            &&& after == before.take(before.len() - 3) + g.name@ + seq![' '] + decimal(
                g.last as nat,
            ) + seq![' '] + decimal(g.first as nat) + seq![
                ' ',
                if g.posting_allowed {
                    'y'
                } else {
                    'n'
                },
                '\r',
                '\n',
                '.',
                '\r',
                '\n',
            ]
        }),
        digits_value(decimal(g.last as nat)) == g.last,
        digits_value(decimal(g.first as nat)) == g.first,
{
    assert(group_lines(Seq::<Group>::empty()) =~= Seq::<char>::empty());
    assert("215 list of newsgroups follows\r\n"@ + group_lines(Seq::<Group>::empty()) =~= "215 list of newsgroups follows\r\n"@);
    let h = "215 list of newsgroups follows\r\n"@;
    let before = list_text(gs);
    assert(gs.push(g).drop_last() =~= gs);
    assert(group_lines(gs.push(g)) == group_lines(gs) + group_line(g));
    assert(before.take(before.len() - 3) =~= h + group_lines(gs));
    assert(list_text(gs.push(g)) =~= before.take(before.len() - 3) + g.name@ + seq![' ']
        + decimal(g.last as nat) + seq![' '] + decimal(g.first as nat) + seq![
        ' ',
        if g.posting_allowed {
            'y'
        } else {
            'n'
        },
        '\r',
        '\n',
        '.',
        '\r',
        '\n',
    ]);
    lemma_decimal_reads_back(g.last as nat);
    lemma_decimal_reads_back(g.first as nat);
}

/// Law: the reply to `ARTICLE` carries the article's text whole and
/// unchanged: it is a status line that does not depend on the text (it
/// starts with `220 ` and the article's number, which reads back as that
/// number), then every character of the text in order, then a line break
/// and the line with a single dot.
pub proof fn lemma_article_reply_carries_text(number: u64, text: Seq<char>, other: Seq<char>)
    ensures
        ({
            let r = step_spec(StateView::AwaitingArticle { number }, EventView::Article(ArticleAnswer::Text(text)));
            let r2 = step_spec(StateView::AwaitingArticle { number }, EventView::Article(ArticleAnswer::Text(other)));
            let s = reply_of(r.1);
            let s2 = reply_of(r2.1);
            let h = s.len() - text.len() - 5;
            let h2 = s2.len() - other.len() - 5;
            &&& r.0 == StateView::Ready
            &&& r.1 is Reply
            &&& h >= 4 + decimal(number as nat).len()
            &&& h == h2
            &&& s.take(h) == s2.take(h2)
            &&& s.take(4) == seq!['2', '2', '0', ' ']
            &&& s.subrange(4, (4 + decimal(number as nat).len()) as int) == decimal(number as nat)
            &&& s.subrange(h, h + text.len()) == text
            &&& s.subrange(h + text.len(), s.len() as int) == seq!['\r', '\n', '.', '\r', '\n']
        }),
        digits_value(decimal(number as nat)) == number,
{
    reveal_strlit("220 ");
    reveal_strlit("\r\n.\r\n");
    let d = decimal(number as nat);
    let mid = " <4105@ucbvax.ARPA> Article retrieved, text follows\r\n"@;
    let head = "220 "@ + d + mid;
    let tail = "\r\n.\r\n"@;
    assert(article_text(number, text) == head + text + tail);
    assert(article_text(number, other) == head + other + tail);
    assert((head + text + tail).take(head.len() as int) =~= head);
    assert((head + other + tail).take(head.len() as int) =~= head);
    assert((head + text + tail).subrange(head.len() as int, (head.len() + text.len()) as int) =~= text);
    assert((head + text + tail).subrange((head.len() + text.len()) as int, (head + text + tail).len() as int) =~= tail);
    assert(tail =~= seq!['\r', '\n', '.', '\r', '\n']);
    assert((head + text + tail).take(4) =~= seq!['2', '2', '0', ' ']);
    assert((head + text + tail).subrange(4, (4 + d.len()) as int) =~= d);
    lemma_decimal_reads_back(number as nat);
}

proof fn lemma_suffix_crlf(front: Seq<char>, tail: Seq<char>)
    requires
        ends_with_crlf(tail),
    ensures
        ends_with_crlf(front + tail),
{
    let t = front + tail;
    assert(t[t.len() - 1] == tail[tail.len() - 1]);
    assert(t[t.len() - 2] == tail[tail.len() - 2]);
}

/// Law: the reply to `LIST` ends with the line with a single dot, whatever
/// the list, the empty one included.
pub proof fn lemma_list_ends_with_dot(gs: Seq<Group>)
    ensures
        list_text(gs).len() >= 3,
        list_text(gs).subrange(list_text(gs).len() - 3, list_text(gs).len() as int)
            == end_of_text(),
{
    let front = "215 list of newsgroups follows\r\n"@ + group_lines(gs);
    assert(list_text(gs) == front + end_of_text());
    assert((front + end_of_text()).subrange(front.len() as int, (front.len() + 3) as int)
        =~= end_of_text());
}

/// Law: every text the gateway sends to the reader, the greeting included,
/// ends with a line break.
pub proof fn lemma_replies_end_with_crlf(s: StateView, e: EventView)
    ensures
        start_spec().1 matches ActionView::Reply(t) && ends_with_crlf(t),
        step_spec(s, e).1 matches ActionView::Reply(t) ==> ends_with_crlf(t),
        step_spec(s, e).1 matches ActionView::ReplyAndClose(t) ==> ends_with_crlf(t),
{
    reveal_strlit("200 amazing news server is ready\r\n");
    match (s, e) {
        (StateView::Ready, EventView::Line(l)) => {
            if command_of(l) == Some(CommandView::Help) {
                reveal_strlit(
                    "100 help text follows\r\nARTICLE <number>\r\nGROUP <newsgroup>\r\nHELP\r\nLIST\r\nQUIT\r\n.\r\n",
                );
            } else if command_of(l) == Some(CommandView::Quit) {
                reveal_strlit("205 closing connection - goodbye!\r\n");
            }
        },
        (StateView::AwaitingGroups, EventView::Groups(gs)) => {
            lemma_suffix_crlf("215 list of newsgroups follows\r\n"@ + group_lines(gs), end_of_text());
        },
        (StateView::AwaitingSelection { name }, EventView::Selected) => {
            reveal_strlit(" selected\r\n");
            lemma_suffix_crlf("211 10 10 "@ + name, " selected\r\n"@);
        },
        (StateView::AwaitingArticle { number }, EventView::Article(ArticleAnswer::Text(x))) => {
            reveal_strlit("\r\n.\r\n");
            lemma_suffix_crlf(
                "220 "@ + decimal(number as nat)
                    + " <4105@ucbvax.ARPA> Article retrieved, text follows\r\n"@ + x,
                "\r\n.\r\n"@,
            );
        },
        (StateView::AwaitingArticle { number }, EventView::Article(ArticleAnswer::Missing)) => {
            reveal_strlit("423 no such article number in this group\r\n");
        },
        _ => {},
    }
}

/// Law: a reader who selects a group with `GROUP` and then asks for an
/// article with `ARTICLE` gets the article fetched from that group, when the
/// state service keeps the session's context as it specifies.
pub proof fn lemma_article_from_selected_group(
    table: Map<u64, ContextView>,
    session: u64,
    group_line: Seq<char>,
    name: Seq<char>,
    article_line: Seq<char>,
    number: Seq<char>,
    n: u64,
)
    requires
        command_of(group_line) == Some(CommandView::Group { name }),
        command_of(article_line) == Some(CommandView::Article { number }),
        article_number(number) == Some(n),
    ensures
        ({
            let (s1, a1) = step_spec(StateView::Ready, EventView::Line(group_line));
            let table1 = select_group_spec(table, session, name);
            let (s2, a2) = step_spec(s1, EventView::Selected);
            let (s3, a3) = step_spec(s2, EventView::Line(article_line));
            let (s4, a4) = step_spec(s3, EventView::Context(context_of(table1, session)));
            &&& a1 == ActionView::SelectGroup(name)
            &&& a2 == ActionView::Reply(selected_text(name))
            &&& a3 == ActionView::FetchContext
            &&& a4 == (ActionView::FetchArticle { group: name, number: n })
            &&& s4 == (StateView::AwaitingArticle { number: n })
        }),
{
}

} // verus!
