//! Messages exchanged between the gateway and the back-end services.

use vstd::prelude::*;

verus! {

/// A newsgroup as listed by the group service.
#[derive(Debug, PartialEq, Eq)]
pub struct Group {
    pub name: String,
    pub last: usize,
    pub first: usize,
    pub posting_allowed: bool,
}

impl Group {
    /// Builds a group from its name, the numbers of its last and first
    /// articles, and whether posting is allowed.
    pub fn new(name: &str, last: usize, first: usize, posting_allowed: bool) -> (g: Group)
        ensures
            g.name@ == name@,
            g.last == last,
            g.first == first,
            g.posting_allowed == posting_allowed,
    {
        Group { name: name.to_owned(), last, first, posting_allowed }
    }
}

impl Clone for Group {
    fn clone(&self) -> (g: Group)
        ensures
            g == *self,
    {
        Group {
            name: self.name.clone(),
            last: self.last,
            first: self.first,
            posting_allowed: self.posting_allowed,
        }
    }
}

/// A request to the group service.
#[derive(Debug, PartialEq, Eq)]
pub enum GroupRequest {
    List,
    NewGroups,
    NewNews,
}

/// A reply of the group service.
#[derive(Debug, PartialEq, Eq)]
pub enum GroupResponse {
    List(Vec<Group>),
    NewGroups,
    NewNews,
}

/// A request to the file service: an article by group and number.
#[derive(Debug, PartialEq, Eq)]
pub enum FileRequest {
    Article(String, u64),
    Body,
    Head,
}

/// A reply of the file service.
#[derive(Debug, PartialEq, Eq)]
pub enum FileResponse {
    /// The text of the requested article.
    Article(String),
    Body,
    Head,
    /// The group holds no article with the requested number.
    NoSuchArticle,
}

/// A request to the state service, which keeps each session's context.
#[derive(Debug, PartialEq, Eq)]
pub enum StateRequest {
    /// Select a group for the session.
    Group(String),
    Last,
    Next,
    Stat,
    /// Get the context of the session.
    Context,
}

/// A reply of the state service.
#[derive(Debug, PartialEq, Eq)]
pub enum StateResponse {
    Nil,
    /// The context of the session.
    Context(Context),
}

/// The state of a reader's session: the selected group and the current
/// article.
#[derive(Debug, PartialEq, Eq)]
pub struct Context {
    pub group: String,
    pub article_pointer: usize,
}

/// What a context holds, for specifications.
pub struct ContextView {
    pub group: Seq<char>,
    pub article_pointer: usize,
}

impl View for Context {
    type V = ContextView;

    open spec fn view(&self) -> ContextView {
        ContextView { group: self.group@, article_pointer: self.article_pointer }
    }
}

/// The context of a session that has selected nothing yet.
pub open spec fn default_context() -> ContextView {
    ContextView { group: Seq::empty(), article_pointer: 0 }
}

impl Default for Context {
    fn default() -> (c: Context)
        ensures
            c@ == default_context(),
    {
        Context { group: String::new(), article_pointer: 0 }
    }
}

impl Clone for Context {
    fn clone(&self) -> (c: Context)
        ensures
            c == *self,
    {
        Context { group: self.group.clone(), article_pointer: self.article_pointer }
    }
}

} // verus!
