//! Deleting a list of rows one at a time, stopping at the first failure.

use vstd::prelude::*;
use crate::common::{clone_kvs, kv_views, KeyValue};
use crate::protocol::{
    answers_to,
    flag_of, reply_flag, status_reply, status_response, DbReply, DbReplyView, DbRequest,
    DbRequestView, Pairs, Step, StepView,
};

verus! {

/// The views of a list of row conditions.
pub open spec fn targets_view(v: Seq<Vec<KeyValue>>) -> Seq<Pairs> {
    v.map_values(|k: Vec<KeyValue>| kv_views(k@))
}

/// A run of deletions: one `DeleteData` per target, in order; the reply is
/// `OK` once every deletion succeeded, `FAILURE` at the first that did not.
pub struct RemovalSession {
    pub topic: String,
    pub token: String,
    pub table: String,
    pub targets: Vec<Vec<KeyValue>>,
    pub next: usize,
    pub finished: bool,
}

impl RemovalSession {
    /// A bound on the database operations the session may still ask for.
    pub open spec fn pending(&self) -> nat {
        if self.finished {
            0
        } else {
            (self.targets.len() - self.next) as nat
        }
    }

    pub open spec fn wf(&self) -> bool {
        self.next <= self.targets.len()
    }

    /// The next deletion, or the success reply once all are done.
    pub open spec fn step_after(&self) -> StepView {
        if self.next < self.targets.len() {
            StepView::Query(
                DbRequestView::DeleteData {
                    table: self.table@,
                    params: targets_view(self.targets@)[self.next as int],
                },
            )
        } else {
            status_reply(self.topic@, self.token@, true)
        }
    }

    /// A session over the given targets, with its first step.
    pub fn begin(topic: String, token: String, table: String, targets: Vec<Vec<KeyValue>>) -> (r: (
        RemovalSession,
        Step,
    ))
        ensures
            r.0.wf(),
            r.0.topic == topic,
            r.0.token == token,
            r.0.table == table,
            r.0.targets == targets,
            r.0.next == 0,
            !r.0.finished,
            r.1@ == r.0.step_after(),
    {
        let s = RemovalSession { topic, token, table, targets, next: 0, finished: false };
        let step = s.current();
        (s, step)
    }

    fn current(&self) -> (r: Step)
        requires
            self.wf(),
        ensures
            r@ == self.step_after(),
    {
        if self.next < self.targets.len() {
            proof {
                assert(targets_view(self.targets@)[self.next as int] == kv_views(self.targets@[self.next as int]@));
            }
            Step::Query(
                DbRequest::DeleteData { table: self.table.clone(), params: clone_kvs(&self.targets[self.next]) },
            )
        } else {
            status_response(&self.topic, &self.token, true)
        }
    }

    /// Whether the session can take a reply: it waits on a deletion or is over.
    pub fn fits(&self, reply: &DbReply) -> (r: bool)
        ensures
            r == (self.finished || self.next < self.targets.len()),
    {
        self.finished || self.next < self.targets.len()
    }

    /// Take the outcome of the pending deletion: go on after a success, reply
    /// `FAILURE` otherwise; a finished session quits.
    pub fn resume(&mut self, reply: DbReply) -> (r: Step)
        requires
            old(self).wf(),
            !old(self).finished ==> old(self).next < old(self).targets.len(),
        ensures
            answers_to(r@, old(self).topic@, old(self).token@),
            final(self).wf(),
            final(self).topic == old(self).topic,
            final(self).token == old(self).token,
            final(self).table == old(self).table,
            final(self).targets == old(self).targets,
            old(self).finished ==> r@ == StepView::Quit && final(self).finished && final(self).next == old(self).next,
            !old(self).finished && flag_of(reply@) == Some(true) ==> {
                &&& final(self).next == old(self).next + 1
                &&& final(self).finished == (final(self).next == final(self).targets.len())
                &&& r@ == final(self).step_after()
            },
            !old(self).finished && flag_of(reply@) != Some(true) ==> {
                &&& final(self).finished
                &&& final(self).next == old(self).next
                &&& r@ == status_reply(old(self).topic@, old(self).token@, false)
            },
            r@ is Query ==> final(self).pending() < old(self).pending(),
    {
        if self.finished {
            return Step::Quit;
        }
        if reply_flag(&reply) == Some(true) {
            self.next = self.next + 1;
            self.finished = self.next == self.targets.len();
            self.current()
        } else {
            self.finished = true;
            status_response(&self.topic, &self.token, false)
        }
    }
}

} // verus!
