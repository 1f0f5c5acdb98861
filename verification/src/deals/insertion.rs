//! Inserting several rows into one table, one at a time, stopping at the
//! first insert that fails (`insert_many_data`).

use vstd::prelude::*;
use crate::common::{clone_kvs, kv_views, KeyValue};
use crate::deals::removal::targets_view;
use crate::json::owned;
use crate::protocol::{DbReply, DbReplyView, DbRequest, DbRequestView};

verus! {

/// What an insertion run does next.
#[derive(Debug, PartialEq, Eq)]
pub enum InsertStep {
    /// Run this insert and pass its outcome to the run.
    Query(DbRequest),
    /// The run is over: every row was inserted (`true`), or an insert failed
    /// and the rest were not tried (`false`).
    Done(bool),
}

/// The mathematical form of [`InsertStep`].
pub enum InsertStepView {
    Query(DbRequestView),
    Done(bool),
}

impl View for InsertStep {
    type V = InsertStepView;

    open spec fn view(&self) -> InsertStepView {
        match self {
            InsertStep::Query(q) => InsertStepView::Query(q@),
            InsertStep::Done(ok) => InsertStepView::Done(*ok),
        }
    }
}

/// An insert succeeded: it ran, whatever flag it gave.
pub open spec fn inserted(reply: DbReplyView) -> bool {
    reply matches DbReplyView::Flag(Some(_))
}

/// Inserting rows into a table in order.
pub struct InsertManySession {
    pub table: String,
    pub rows: Vec<Vec<KeyValue>>,
    pub next: usize,
    pub finished: bool,
}

impl InsertManySession {
    pub open spec fn wf(&self) -> bool {
        self.next <= self.rows.len()
    }

    /// A bound on the inserts the run may still ask for.
    pub open spec fn pending(&self) -> nat {
        if self.finished {
            0
        } else {
            (self.rows.len() - self.next) as nat
        }
    }

    /// The insert of the next row, or the end of a run in which every row
    /// was inserted.
    pub open spec fn step_after(&self) -> InsertStepView {
        if self.next < self.rows.len() {
            InsertStepView::Query(
                DbRequestView::InsertOneData { table: self.table@, params: targets_view(self.rows@)[self.next as int] },
            )
        } else {
            InsertStepView::Done(true)
        }
    }

    fn current(&self) -> (r: InsertStep)
        requires
            self.wf(),
        ensures
            r@ == self.step_after(),
    {
        if self.next < self.rows.len() {
            proof {
                assert(targets_view(self.rows@)[self.next as int] == kv_views(self.rows@[self.next as int]@));
            }
            InsertStep::Query(DbRequest::InsertOneData { table: self.table.clone(), params: clone_kvs(&self.rows[self.next]) })
        } else {
            InsertStep::Done(true)
        }
    }

    /// Begin inserting the given rows into the table, with the first step.
    pub fn start(table_name: &str, params: &Vec<Vec<KeyValue>>) -> (r: (InsertManySession, InsertStep))
        ensures
            r.0.wf(),
            r.0.table@ == table_name@,
            targets_view(r.0.rows@) == targets_view(params@),
            r.0.next == 0,
            !r.0.finished,
            r.1@ == r.0.step_after(),
    {
        let mut rows: Vec<Vec<KeyValue>> = Vec::new();
        let mut i: usize = 0;
        while i < params.len()
            invariant
                i <= params.len(),
                targets_view(rows@) == targets_view(params@).take(i as int),
            decreases params.len() - i,
        {
            rows.push(clone_kvs(&params[i]));
            proof {
                assert(targets_view(rows@) == targets_view(rows@.drop_last()).push(kv_views(rows@.last()@)));
                assert(targets_view(params@).take(i + 1) == targets_view(params@).take(i as int).push(
                    kv_views(params@[i as int]@),
                ));
            }
            i = i + 1;
        }
        proof {
            assert(targets_view(params@).take(params.len() as int) == targets_view(params@));
        }
        let s = InsertManySession { table: owned(table_name), rows, next: 0, finished: false };
        let step = s.current();
        (s, step)
    }

    /// Whether the run can take an outcome: it waits on an insert or is over.
    pub fn fits(&self, reply: &DbReply) -> (r: bool)
        ensures
            r == (self.finished || self.next < self.rows.len()),
    {
        self.finished || self.next < self.rows.len()
    }

    /// Take the outcome of the pending insert: go on with the next row after
    /// a success, end the run after a failure; a run that is over tells again
    /// how it ended.
    pub fn resume(&mut self, reply: DbReply) -> (r: InsertStep)
        requires
            old(self).wf(),
            !old(self).finished ==> old(self).next < old(self).rows.len(),
        ensures
            final(self).wf(),
            final(self).table == old(self).table,
            final(self).rows == old(self).rows,
            old(self).finished ==> r@ == InsertStepView::Done(old(self).next == old(self).rows.len())
                && final(self).finished && final(self).next == old(self).next,
            !old(self).finished && inserted(reply@) ==> {
                &&& final(self).next == old(self).next + 1
                &&& final(self).finished == (final(self).next == final(self).rows.len())
                &&& r@ == final(self).step_after()
            },
            !old(self).finished && !inserted(reply@) ==> {
                &&& final(self).finished
                &&& final(self).next == old(self).next
                &&& r@ == InsertStepView::Done(false)
            },
            r@ is Query ==> final(self).pending() < old(self).pending(),
    {
        if self.finished {
            return InsertStep::Done(self.next == self.rows.len());
        }
        match reply {
            DbReply::Flag(Some(_)) => {
                self.next = self.next + 1;
                self.finished = self.next == self.rows.len();
                self.current()
            },
            _ => {
                self.finished = true;
                InsertStep::Done(false)
            },
        }
    }
}

} // verus!
