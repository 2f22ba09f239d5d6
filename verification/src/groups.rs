//! The group service: the list of newsgroups.

use crate::types::{Group, GroupRequest, GroupResponse};
use vstd::prelude::*;

verus! {

/// The newsgroups the group service lists.
pub struct GroupDirectory {
    groups: Vec<Group>,
}

impl View for GroupDirectory {
    type V = Seq<Group>;

    closed spec fn view(&self) -> Seq<Group> {
        self.groups@
    }
}

impl GroupDirectory {
    /// A directory that lists `groups`, in this order.
    pub fn new(groups: Vec<Group>) -> (d: GroupDirectory)
        ensures
            d@ == groups@,
    {
        GroupDirectory { groups }
    }

    /// Answers a request: for the list of groups with every group of the
    /// directory, in order; for new groups or new articles with the same
    /// kind of answer.
    pub fn handle(&self, request: &GroupRequest) -> (resp: GroupResponse)
        ensures
            match request {
                GroupRequest::List => resp matches GroupResponse::List(v) && v@ == self@,
                GroupRequest::NewGroups => resp is NewGroups,
                GroupRequest::NewNews => resp is NewNews,
            },
    {
        match request {
            GroupRequest::NewGroups => {
                return GroupResponse::NewGroups;
            },
            GroupRequest::NewNews => {
                return GroupResponse::NewNews;
            },
            GroupRequest::List => {},
        }
        let mut out: Vec<Group> = Vec::new();
        let mut i: usize = 0;
        while i < self.groups.len()
            invariant
                i <= self@.len(),
                out@ == self@.subrange(0, i as int),
            decreases self@.len() - i,
        {
            out.push(self.groups[i].clone());
            i = i + 1;
            assert(out@ =~= self@.subrange(0, i as int));
        }
        assert(self@.subrange(0, self@.len() as int) =~= self@);
        GroupResponse::List(out)
    }
}

} // verus!
