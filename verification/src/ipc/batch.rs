//! Commands that name several jobs: one request for each, in order. An error makes
//! the command fail in the end, and stops none of the other requests.
use vstd::prelude::*;

use super::client;
use super::client::{judge, parse_job_ids, parse_priority_args};
use super::client::{IdAction, IdError, PriorityError, Remark};
use super::protocol::{Request, Response};
use crate::text;

verus! {

/// The requests of a command that names several jobs.
#[derive(Debug)]
pub struct Batch {
    ids: Vec<u32>,
    /// How many of the requests were answered.
    answered: usize,
    action: IdAction,
    had_error: bool,
}

/// A batch of requests, as a mathematical value.
#[verifier::ext_equal]
pub struct BatchView {
    /// The jobs whose request was not answered yet, in order.
    pub waiting: Seq<u32>,
    /// What is done to each of them.
    pub action: IdAction,
    /// Whether one of the answers was an error.
    pub had_error: bool,
}

impl BatchView {
    /// The next request, where there is one.
    pub open spec fn next(self) -> Option<Request> {
        if self.waiting.len() == 0 {
            None
        } else {
            Some(self.action.spec_request(self.waiting[0]))
        }
    }

    /// What an answer to the next request leaves. An answer that does not belong
    /// to the request leaves everything.
    pub open spec fn after(self, response: Response) -> BatchView {
        if self.waiting.len() == 0 {
            self
        } else {
            match response {
                Response::Done(_) => BatchView { waiting: self.waiting.skip(1), ..self },
                Response::Error(_) => BatchView {
                    waiting: self.waiting.skip(1),
                    had_error: true,
                    ..self
                },
                _ => self,
            }
        }
    }

    /// What several answers leave, one after the other.
    pub open spec fn after_all(self, responses: Seq<Response>) -> BatchView
        decreases responses.len(),
    {
        if responses.len() == 0 {
            self
        } else {
            self.after_all(responses.drop_last()).after(responses.last())
        }
    }

    /// The exit status of the command: 1 where one of the answers was an error.
    pub open spec fn status(self) -> int {
        if self.had_error {
            1
        } else {
            0
        }
    }
}

impl Batch {
    pub closed spec fn contents(&self) -> BatchView {
        BatchView {
            waiting: if self.answered <= self.ids@.len() {
                self.ids@.skip(self.answered as int)
            } else {
                Seq::empty()
            },
            action: self.action,
            had_error: self.had_error,
        }
    }
}

impl View for Batch {
    type V = BatchView;

    open spec fn view(&self) -> BatchView {
        self.contents()
    }
}

impl Batch {
    /// The same for each of several jobs.
    pub fn new(ids: Vec<u32>, action: IdAction) -> (r: Batch)
        ensures
            r@ == (BatchView { waiting: ids@, action, had_error: false }),
    {
        assert(ids@.skip(0) == ids@);
        Batch { ids, answered: 0, action, had_error: false }
    }

    /// What is done to each job.
    pub fn action(&self) -> (r: IdAction)
        ensures
            r == self@.action,
    {
        self.action
    }

    /// The next request, where there is one.
    pub fn next(&self) -> (r: Option<Request>)
        ensures
            r == self@.next(),
    {
        if self.answered < self.ids.len() {
            Some(self.action.request(self.ids[self.answered]))
        } else {
            None
        }
    }

    /// Takes the answer to the next request, and says what to tell about it.
    pub fn answer(&mut self, response: Response) -> (r: Remark)
        ensures
            final(self)@ == old(self)@.after(response),
            client::judged(response, r),
    {
        if self.answered < self.ids.len() {
            match &response {
                Response::Done(_) => {
                    self.answered = self.answered + 1;
                },
                Response::Error(_) => {
                    self.answered = self.answered + 1;
                    self.had_error = true;
                },
                _ => {},
            }
        }
        assert(self@ =~= old(self)@.after(response));
        judge(response)
    }

    /// The exit status of the command: 1 where one of the answers was an error.
    pub fn exit_status(&self) -> (r: i32)
        ensures
            r == self@.status(),
    {
        if self.had_error {
            1
        } else {
            0
        }
    }
}

/// The requests of a command that does something to each job that its arguments
/// name.
pub fn act_on_many(args: &[String], action: IdAction) -> (r: Result<Batch, IdError>)
    ensures
        match r {
            Ok(batch) => {
                &&& client::first_id_error(args.deep_view()) is None
                &&& client::increasing(batch@.waiting)
                &&& forall|id: u32| #[trigger]
                    batch@.waiting.contains(id) <==> client::some_names_job(args.deep_view(), id)
                &&& batch@.action == action
                &&& !batch@.had_error
            },
            Err(e) => client::first_id_error(args.deep_view()) == Some(e@),
        },
{
    match parse_job_ids(args) {
        Ok(ids) => Ok(Batch::new(ids, action)),
        Err(e) => Err(e),
    }
}

/// The requests of a priority change: the last argument is the priority value and
/// all preceding ones are job ids.
pub fn set_priority_many(args: &Vec<String>) -> (r: Result<Batch, PriorityError>)
    requires
        args@.len() >= 2,
    ensures
        ({
            let texts = args.deep_view();
            match r {
                Ok(batch) => {
                    &&& text::parsed_i32(texts.last()) is Some
                    &&& client::first_id_error(texts.drop_last()) is None
                    &&& client::increasing(batch@.waiting)
                    &&& forall|id: u32| #[trigger]
                        batch@.waiting.contains(id) <==> client::some_names_job(
                            texts.drop_last(),
                            id,
                        )
                    &&& batch@.action == (IdAction::SetPriority {
                        priority: text::parsed_i32(texts.last())->0,
                    })
                    &&& !batch@.had_error
                },
                Err(PriorityError::BadPriority { arg }) => arg@ == texts.last()
                    && text::parsed_i32(texts.last()) is None,
                Err(PriorityError::Ids(e)) => text::parsed_i32(texts.last()) is Some
                    && client::first_id_error(texts.drop_last()) == Some(e@),
            }
        }),
{
    match parse_priority_args(args) {
        Ok((ids, priority)) => Ok(Batch::new(ids, IdAction::SetPriority { priority })),
        Err(e) => Err(e),
    }
}

/// Whether an answer belongs to a request for one of several jobs.
pub open spec fn belongs(response: Response) -> bool {
    response is Done || response is Error
}

/// A command that names several jobs sends one request for each, in order,
/// whether or not those before were answered with an error, and its exit status is
/// 1 exactly where one of the answers was an error.
pub proof fn law_errors_stop_no_other_request(batch: BatchView, responses: Seq<Response>)
    requires
        responses.len() <= batch.waiting.len(),
        forall|i: int| 0 <= i < responses.len() ==> belongs(#[trigger] responses[i]),
        !batch.had_error,
    ensures
        batch.after_all(responses).next() == (if responses.len() < batch.waiting.len() {
            Some(batch.action.spec_request(batch.waiting[responses.len() as int]))
        } else {
            None
        }),
        batch.after_all(responses).status() == 1 <==> exists|i: int|
            0 <= i < responses.len() && #[trigger] responses[i] is Error,
{
    lemma_after_all(batch, responses);
}

proof fn lemma_after_all(batch: BatchView, responses: Seq<Response>)
    requires
        responses.len() <= batch.waiting.len(),
        forall|i: int| 0 <= i < responses.len() ==> belongs(#[trigger] responses[i]),
    ensures
        batch.after_all(responses).waiting == batch.waiting.skip(responses.len() as int),
        batch.after_all(responses).action == batch.action,
        batch.after_all(responses).had_error <==> batch.had_error || exists|i: int|
            0 <= i < responses.len() && #[trigger] responses[i] is Error,
    decreases responses.len(),
{
    if responses.len() == 0 {
        assert(batch.waiting.skip(0) == batch.waiting);
    } else {
        let before = responses.drop_last();
        lemma_after_all(batch, before);
        let mid = batch.after_all(before);
        assert(belongs(responses[responses.len() - 1]));
        assert(mid.waiting.skip(1) =~= batch.waiting.skip(responses.len() as int));
        if exists|i: int| 0 <= i < responses.len() && #[trigger] responses[i] is Error {
            let i = choose|i: int| 0 <= i < responses.len() && #[trigger] responses[i] is Error;
            if i < before.len() {
                assert(before[i] is Error);
            }
        }
        if exists|i: int| 0 <= i < before.len() && #[trigger] before[i] is Error {
            let i = choose|i: int| 0 <= i < before.len() && #[trigger] before[i] is Error;
            assert(responses[i] is Error);
        }
    }
}

} // verus!
