//! A proving session: a script of actions, performed in order by a driver,
//! that ends at the first failure.

use vstd::prelude::*;
use crate::action::{actions_view, texts, Action, ActionView};
use crate::error::{ErrorView, ProverError};

verus! {

/// How the driver reports the end of an action: `Ok` with the action's
/// output (empty where it has none), or `Err` with the reason of the failure.
pub open spec fn outcome_view(outcome: Result<String, String>) -> Result<Seq<char>, Seq<char>> {
    match outcome {
        Ok(output) => Ok(output@),
        Err(why) => Err(why@),
    }
}

/// How a session ends: the proof documents in the order in which they were
/// made, or the error that ended it.
pub open spec fn result_view(result: Result<Vec<String>, ProverError>) -> Result<
    Seq<Seq<char>>,
    ErrorView,
> {
    match result {
        Ok(documents) => Ok(texts(documents@)),
        Err(error) => Err(error@),
    }
}

/// The number of actions of `script` whose output is a proof document.
pub open spec fn document_count(script: Seq<ActionView>) -> nat
    decreases script.len(),
{
    if script.len() == 0 {
        0
    } else {
        document_count(script.drop_last()) + if script.last().yields_document() {
            1nat
        } else {
            0nat
        }
    }
}

/// The state of a session.
pub struct SessionView {
    /// The actions of the session, in the order in which they are performed.
    pub script: Seq<ActionView>,
    /// The number of actions that were performed and did not fail.
    pub done: nat,
    /// The proof documents made so far, in order.
    pub documents: Seq<Seq<char>>,
    /// The error that ended the session, if one did.
    pub failure: Option<ErrorView>,
}

impl SessionView {
    /// The session that is about to perform the first action of `script`.
    pub open spec fn start(script: Seq<ActionView>) -> SessionView {
        SessionView { script, done: 0, documents: Seq::empty(), failure: None }
    }

    /// What holds of every session: it is within its script; after a failure
    /// it holds no document; before one it holds a document for each action
    /// performed that yields one.
    pub open spec fn wf(self) -> bool {
        &&& self.done <= self.script.len()
        &&& self.failure is Some ==> self.documents.len() == 0
        &&& self.failure is None ==> self.documents.len() == document_count(
            self.script.take(self.done as int),
        )
    }

    /// Whether the session is over: it failed, or its script is performed.
    pub open spec fn finished(self) -> bool {
        self.failure is Some || self.done >= self.script.len()
    }

    /// The action to perform next, if the session is not over.
    pub open spec fn pending(self) -> Option<ActionView> {
        if self.finished() {
            None
        } else {
            Some(self.script[self.done as int])
        }
    }

    /// The session after the driver reported `outcome` for the pending
    /// action. A success moves on to the next action and keeps the output
    /// where the action yields a document. A failure ends the session with
    /// the action's error and drops every document. A session that is over
    /// stays as it is.
    pub open spec fn advance(self, outcome: Result<Seq<char>, Seq<char>>) -> SessionView {
        if self.finished() {
            self
        } else {
            let action = self.script[self.done as int];
            match outcome {
                Ok(output) => SessionView {
                    script: self.script,
                    done: self.done + 1,
                    documents: if action.yields_document() {
                        self.documents.push(output)
                    } else {
                        self.documents
                    },
                    failure: None,
                },
                Err(why) => SessionView {
                    script: self.script,
                    done: self.done,
                    documents: Seq::empty(),
                    failure: Some(action.failure(why)),
                },
            }
        }
    }

    /// How the session ended, if it is over.
    pub open spec fn result(self) -> Option<Result<Seq<Seq<char>>, ErrorView>> {
        match self.failure {
            Some(error) => Some(Err(error)),
            None => if self.done >= self.script.len() {
                Some(Ok(self.documents))
            } else {
                None
            },
        }
    }

    /// The session after the driver reported `outcomes`, one after the other.
    pub open spec fn run(self, outcomes: Seq<Result<Seq<char>, Seq<char>>>) -> SessionView
        decreases outcomes.len(),
    {
        if outcomes.len() == 0 {
            self
        } else {
            self.run(outcomes.drop_last()).advance(outcomes.last())
        }
    }
}

/// A proving session in progress.
pub struct Session {
    script: Vec<Action>,
    done: usize,
    documents: Vec<String>,
    failure: Option<ProverError>,
}

impl View for Session {
    type V = SessionView;

    closed spec fn view(&self) -> SessionView {
        SessionView {
            script: actions_view(self.script@),
            done: self.done as nat,
            documents: texts(self.documents@),
            failure: match self.failure {
                Some(error) => Some(error@),
                None => None,
            },
        }
    }
}

impl Session {
    #[verifier::type_invariant]
    spec fn inv(self) -> bool {
        self@.wf()
    }

    /// Starts a session that performs `script`.
    pub fn new(script: Vec<Action>) -> (session: Session)
        ensures
            session@ == SessionView::start(actions_view(script@)),
            session@.wf(),
    {
        let session = Session { script, done: 0, documents: Vec::new(), failure: None };
        proof {
            assert(session@.documents =~= Seq::empty());
            assert(session@.script.take(0) =~= Seq::empty());
        }
        session
    }

    /// The action to perform next, or `None` where the session is over.
    pub fn action(&self) -> (pending: Option<&Action>)
        ensures
            self@.wf(),
            match pending {
                Some(action) => self@.pending() == Some(action@),
                None => self@.pending() is None,
            },
    {
        proof {
            use_type_invariant(self);
        }
        if self.failure.is_some() || self.done >= self.script.len() {
            None
        } else {
            Some(&self.script[self.done])
        }
    }

    /// Takes the driver's report on the pending action.
    pub fn advance(self, outcome: Result<String, String>) -> (next: Session)
        ensures
            next@ == self@.advance(outcome_view(outcome)),
            next@.wf(),
    {
        proof {
            use_type_invariant(&self);
        }
        let ghost before = self@;
        let Session { script, done, documents, failure } = self;
        if failure.is_some() || done >= script.len() {
            return Session { script, done, documents, failure };
        }
        match outcome {
            Ok(output) => {
                let mut documents = documents;
                if script[done].yields_document() {
                    documents.push(output);
                }
                proof {
                    let after = before.advance(outcome_view(outcome));
                    lemma_advance_wf(before, outcome_view(outcome));
                    assert(texts(documents@) =~= after.documents);
                }
                Session { script, done: done + 1, documents, failure: None }
            },
            Err(why) => {
                let error = script[done].failure(why.as_str());
                let documents = Vec::new();
                proof {
                    assert(texts(documents@) =~= Seq::empty());
                }
                Session { script, done, documents, failure: Some(error) }
            },
        }
    }

    /// How the session ended, or `None` where it is not over.
    pub fn finish(self) -> (result: Option<Result<Vec<String>, ProverError>>)
        ensures
            self@.wf(),
            match result {
                Some(end) => self@.result() == Some(result_view(end)),
                None => self@.result() is None,
            },
    {
        proof {
            use_type_invariant(&self);
        }
        let Session { script, done, documents, failure } = self;
        match failure {
            Some(error) => Some(Err(error)),
            None => if done >= script.len() {
                Some(Ok(documents))
            } else {
                None
            },
        }
    }
}

/// Whether every report of `outcomes` is a success.
pub open spec fn all_ok(outcomes: Seq<Result<Seq<char>, Seq<char>>>) -> bool {
    forall|i: int| 0 <= i < outcomes.len() ==> (#[trigger] outcomes[i]) is Ok
}

/// The outputs, in order, of those of the first `outcomes.len()` actions of
/// `script` that yield a document, where every report is a success.
pub open spec fn collected(
    script: Seq<ActionView>,
    outcomes: Seq<Result<Seq<char>, Seq<char>>>,
) -> Seq<Seq<char>>
    recommends
        outcomes.len() <= script.len(),
        all_ok(outcomes),
    decreases outcomes.len(),
{
    if outcomes.len() == 0 {
        Seq::empty()
    } else {
        let earlier = collected(script, outcomes.drop_last());
        if script[outcomes.len() - 1].yields_document() {
            earlier.push(outcomes.last()->Ok_0)
        } else {
            earlier
        }
    }
}

/// Nothing is collected from actions that yield no document.
pub proof fn lemma_collected_none(
    script: Seq<ActionView>,
    outcomes: Seq<Result<Seq<char>, Seq<char>>>,
    n: nat,
)
    requires
        n <= outcomes.len(),
        forall|i: int| 0 <= i < n ==> !(#[trigger] script[i]).yields_document(),
    ensures
        collected(script, outcomes.take(n as int)) == Seq::<Seq<char>>::empty(),
    decreases n,
{
    if n > 0 {
        lemma_collected_none(script, outcomes, (n - 1) as nat);
        assert(outcomes.take(n as int).drop_last() =~= outcomes.take(n - 1));
    }
}

/// A session that is over takes no further report.
pub proof fn lemma_finished_is_final(session: SessionView, outcome: Result<Seq<char>, Seq<char>>)
    requires
        session.finished(),
    ensures
        session.advance(outcome) == session,
{
}

/// A session that is over stays as it is, whatever is reported to it.
pub proof fn lemma_run_finished(session: SessionView, outcomes: Seq<Result<Seq<char>, Seq<char>>>)
    requires
        session.finished(),
    ensures
        session.run(outcomes) == session,
    decreases outcomes.len(),
{
    if outcomes.len() > 0 {
        lemma_run_finished(session, outcomes.drop_last());
    }
}

/// While every report is a success, a session performs its script in order
/// and keeps the output of each action that yields a document.
pub proof fn lemma_run_successes(
    script: Seq<ActionView>,
    outcomes: Seq<Result<Seq<char>, Seq<char>>>,
)
    requires
        outcomes.len() <= script.len(),
        all_ok(outcomes),
    ensures
        SessionView::start(script).run(outcomes) == (SessionView {
            script,
            done: outcomes.len(),
            documents: collected(script, outcomes),
            failure: None,
        }),
    decreases outcomes.len(),
{
    if outcomes.len() > 0 {
        let earlier = outcomes.drop_last();
        assert(all_ok(earlier)) by {
            assert forall|i: int| 0 <= i < earlier.len() implies (#[trigger] earlier[i]) is Ok by {
                assert(outcomes[i] is Ok);
            }
        }
        lemma_run_successes(script, earlier);
        assert(outcomes.last() == outcomes[outcomes.len() - 1]);
    }
}

/// The first failure ends the session: its error is that of the action that
/// failed, no document is kept, and what is reported afterwards changes
/// nothing.
pub proof fn lemma_run_first_failure(
    script: Seq<ActionView>,
    outcomes: Seq<Result<Seq<char>, Seq<char>>>,
    k: int,
)
    requires
        0 <= k < outcomes.len(),
        k < script.len(),
        outcomes[k] is Err,
        all_ok(outcomes.take(k)),
    ensures
        SessionView::start(script).run(outcomes) == (SessionView {
            script,
            done: k as nat,
            documents: Seq::empty(),
            failure: Some(script[k].failure(outcomes[k]->Err_0)),
        }),
        SessionView::start(script).run(outcomes).result() == Some(
            Err::<Seq<Seq<char>>, ErrorView>(script[k].failure(outcomes[k]->Err_0)),
        ),
    decreases outcomes.len(),
{
    let earlier = outcomes.drop_last();
    if k == outcomes.len() - 1 {
        assert(earlier =~= outcomes.take(k));
        lemma_run_successes(script, earlier);
    } else {
        assert(earlier.take(k) =~= outcomes.take(k));
        lemma_run_first_failure(script, earlier, k);
    }
}

/// A session whose script is performed without a failure ends with as many
/// documents as its script has actions that yield one.
pub proof fn lemma_complete_run(
    script: Seq<ActionView>,
    outcomes: Seq<Result<Seq<char>, Seq<char>>>,
)
    requires
        outcomes.len() == script.len(),
        all_ok(outcomes),
    ensures
        SessionView::start(script).run(outcomes).result() == Some(
            Ok::<Seq<Seq<char>>, ErrorView>(collected(script, outcomes)),
        ),
        collected(script, outcomes).len() == document_count(script),
{
    lemma_run_successes(script, outcomes);
    lemma_collected_len(script, outcomes);
    assert(script.take(script.len() as int) =~= script);
}

/// One document is collected for each action performed that yields one.
pub proof fn lemma_collected_len(
    script: Seq<ActionView>,
    outcomes: Seq<Result<Seq<char>, Seq<char>>>,
)
    requires
        outcomes.len() <= script.len(),
    ensures
        collected(script, outcomes).len() == document_count(script.take(outcomes.len() as int)),
    decreases outcomes.len(),
{
    if outcomes.len() > 0 {
        lemma_collected_len(script, outcomes.drop_last());
        let n = outcomes.len() as int;
        assert(script.take(n).drop_last() =~= script.take(n - 1));
    }
}

/// A report takes a session that holds what every session holds to another
/// such session.
pub proof fn lemma_advance_wf(session: SessionView, outcome: Result<Seq<char>, Seq<char>>)
    requires
        session.wf(),
    ensures
        session.advance(outcome).wf(),
{
    if !session.finished() && outcome is Ok {
        let done = session.done as int;
        assert(session.script.take(done + 1).drop_last() =~= session.script.take(done));
    }
}

} // verus!
