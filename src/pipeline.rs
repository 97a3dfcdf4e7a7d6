use vstd::prelude::*;

verus! {

/// Where the handling of one request stands.
#[derive(Debug, Clone, Copy, PartialEq, Eq, Structural)]
pub enum Stage {
    /// Extracting the parameter at this index.
    Extracting(usize),
    /// All parameters extracted; the handler runs next.
    Invoking,
    /// The handler returned; its value is converted next.
    Responding,
    /// The parameter at this index failed; its interceptor answers.
    Failed(usize),
    /// The response is out.
    Done,
}

/// What the caller does next.
#[derive(Debug, Clone, Copy, PartialEq, Eq, Structural)]
pub enum Action {
    /// Read the whole request body into a buffer.
    ReadBody,
    /// Extract the parameter at this index.
    Extract(usize),
    /// Call the handler with the extracted parameters.
    Invoke,
    /// Convert the handler's value into the response.
    Respond,
    /// Answer with the interceptor of the parameter at this index.
    Reject(usize),
    /// Nothing is left to do.
    Finish,
}

/// What the caller reports back.
#[derive(Debug, Clone, Copy, PartialEq, Eq, Structural)]
pub enum Event {
    BodyRead,
    /// An extraction finished: `true` when it succeeded.
    Extracted(bool),
    Invoked,
    Responded,
}

/// The action that a state calls for. The body is read on the first
/// extraction that needs it, never before and never again.
pub open spec fn action_of(takes_body: Seq<bool>, stage: Stage, body_read: bool) -> Action {
    match stage {
        Stage::Extracting(i) => if takes_body[i as int] && !body_read {
            Action::ReadBody
        } else {
            Action::Extract(i)
        },
        Stage::Invoking => Action::Invoke,
        Stage::Responding => Action::Respond,
        Stage::Failed(i) => Action::Reject(i),
        Stage::Done => Action::Finish,
    }
}

/// Whether `ev` reports the outcome of `a`.
pub open spec fn answers(a: Action, ev: Event) -> bool {
    match (a, ev) {
        (Action::ReadBody, Event::BodyRead) => true,
        (Action::Extract(_), Event::Extracted(_)) => true,
        (Action::Invoke, Event::Invoked) => true,
        (Action::Respond, Event::Responded) => true,
        (Action::Reject(_), Event::Responded) => true,
        _ => false,
    }
}

/// The stage after `ev` answers the action of `stage`.
pub open spec fn stage_after(n: nat, stage: Stage, ev: Event) -> Stage {
    match (stage, ev) {
        (Stage::Extracting(i), Event::Extracted(true)) => if i + 1 < n {
            Stage::Extracting((i + 1) as usize)
        } else {
            Stage::Invoking
        },
        (Stage::Extracting(i), Event::Extracted(false)) => Stage::Failed(i),
        (Stage::Invoking, Event::Invoked) => Stage::Responding,
        (Stage::Responding, Event::Responded) => Stage::Done,
        (Stage::Failed(_), Event::Responded) => Stage::Done,
        _ => stage,
    }
}

/// Drives the handling of one request: extract the handler's parameters in
/// order, stop at the first failure, else invoke the handler and respond.
pub struct Pipeline {
    takes_body: Vec<bool>,
    stage: Stage,
    body_read: bool,
}

impl Pipeline {
    pub closed spec fn params(&self) -> Seq<bool> {
        self.takes_body@
    }

    pub closed spec fn stage(&self) -> Stage {
        self.stage
    }

    pub closed spec fn body_read(&self) -> bool {
        self.body_read
    }

    /// The stage indexes a parameter, and the body has been read exactly when
    /// an extraction so far needed it.
    pub open spec fn wf(&self) -> bool {
        &&& self.stage() matches Stage::Extracting(i) ==> i < self.params().len()
        &&& self.stage() matches Stage::Failed(i) ==> i < self.params().len()
        &&& self.params().len() <= usize::MAX
    }

    /// Starts handling for a handler whose parameters need the body as
    /// `takes_body` says, in order.
    pub fn new(takes_body: Vec<bool>) -> (r: Self)
        ensures
            r.wf(),
            r.params() == takes_body@,
            !r.body_read(),
            r.stage() == if takes_body@.len() == 0 {
                Stage::Invoking
            } else {
                Stage::Extracting(0)
            },
    {
        let stage = if takes_body.len() == 0 {
            Stage::Invoking
        } else {
            Stage::Extracting(0)
        };
        Pipeline { takes_body, stage, body_read: false }
    }

    pub fn stage_now(&self) -> (r: Stage)
        ensures
            r == self.stage(),
    {
        self.stage
    }

    pub fn body_was_read(&self) -> (r: bool)
        ensures
            r == self.body_read(),
    {
        self.body_read
    }

    /// What to do next.
    pub fn next_action(&self) -> (r: Action)
        requires
            self.wf(),
        ensures
            r == action_of(self.params(), self.stage(), self.body_read()),
    {
        match self.stage {
            Stage::Extracting(i) => if self.takes_body[i] && !self.body_read {
                Action::ReadBody
            } else {
                Action::Extract(i)
            },
            Stage::Invoking => Action::Invoke,
            Stage::Responding => Action::Respond,
            Stage::Failed(i) => Action::Reject(i),
            Stage::Done => Action::Finish,
        }
    }

    /// Takes the outcome of the last action. An event that does not answer
    /// it is refused and changes nothing.
    pub fn on_event(&mut self, ev: Event) -> (accepted: bool)
        requires
            old(self).wf(),
        ensures
            final(self).wf(),
            final(self).params() == old(self).params(),
            accepted == answers(action_of(old(self).params(), old(self).stage(), old(self).body_read()), ev),
            accepted ==> final(self).stage() == stage_after(old(self).params().len(), old(self).stage(), ev),
            accepted ==> final(self).body_read() == (old(self).body_read() || ev == Event::BodyRead),
            !accepted ==> *final(self) == *old(self),
    {
        let action = self.next_action();
        match (action, ev) {
            (Action::ReadBody, Event::BodyRead) => {
                self.body_read = true;
                true
            },
            (Action::Extract(i), Event::Extracted(ok)) => {
                if ok {
                    if i + 1 < self.takes_body.len() {
                        self.stage = Stage::Extracting(i + 1);
                    } else {
                        self.stage = Stage::Invoking;
                    }
                } else {
                    self.stage = Stage::Failed(i);
                }
                true
            },
            (Action::Invoke, Event::Invoked) => {
                self.stage = Stage::Responding;
                true
            },
            (Action::Respond, Event::Responded) => {
                self.stage = Stage::Done;
                true
            },
            (Action::Reject(_), Event::Responded) => {
                self.stage = Stage::Done;
                true
            },
            _ => false,
        }
    }
}

/// The stage a handler with parameters `p` starts in.
pub open spec fn initial_stage(p: Seq<bool>) -> Stage {
    if p.len() == 0 {
        Stage::Invoking
    } else {
        Stage::Extracting(0)
    }
}

/// Replays the events `evs` from a state: the stage and body flag reached,
/// and how many times the body was read on the way.
pub open spec fn replay(p: Seq<bool>, stage: Stage, read: bool, evs: Seq<Event>) -> (Stage, bool, nat)
    decreases evs.len(),
{
    if evs.len() == 0 {
        (stage, read, 0)
    } else {
        let (s, r, k) = replay(p, stage, read, evs.drop_last());
        let ev = evs.last();
        if answers(action_of(p, s, r), ev) {
            (
                stage_after(p.len(), s, ev),
                r || ev == Event::BodyRead,
                k + if ev == Event::BodyRead {
                    1nat
                } else {
                    0nat
                },
            )
        } else {
            (s, r, k)
        }
    }
}

proof fn lemma_reads_match_flag(p: Seq<bool>, evs: Seq<Event>)
    ensures
        replay(p, initial_stage(p), false, evs).2 == if replay(p, initial_stage(p), false, evs).1 {
            1nat
        } else {
            0nat
        },
    decreases evs.len(),
{
    if evs.len() > 0 {
        lemma_reads_match_flag(p, evs.drop_last());
    }
}

/// However the extractions turn out, one request's body is read at most
/// once.
pub proof fn lemma_body_read_at_most_once(p: Seq<bool>, evs: Seq<Event>)
    ensures
        replay(p, initial_stage(p), false, evs).2 <= 1,
{
    lemma_reads_match_flag(p, evs);
}

/// How many extractions succeeded while replaying `evs` from the start.
pub open spec fn extracted_count(p: Seq<bool>, evs: Seq<Event>) -> nat
    decreases evs.len(),
{
    if evs.len() == 0 {
        0
    } else {
        let (s, r, _) = replay(p, initial_stage(p), false, evs.drop_last());
        let k = extracted_count(p, evs.drop_last());
        if answers(action_of(p, s, r), evs.last()) && evs.last() == Event::Extracted(true) {
            k + 1
        } else {
            k
        }
    }
}

proof fn lemma_stage_counts(p: Seq<bool>, evs: Seq<Event>)
    requires
        p.len() <= usize::MAX,
    ensures
        match replay(p, initial_stage(p), false, evs).0 {
            Stage::Extracting(i) => i == extracted_count(p, evs) && i < p.len(),
            Stage::Failed(i) => i == extracted_count(p, evs) && i < p.len(),
            Stage::Invoking => extracted_count(p, evs) == p.len(),
            Stage::Responding => extracted_count(p, evs) == p.len(),
            Stage::Done => extracted_count(p, evs) <= p.len(),
        },
    decreases evs.len(),
{
    if evs.len() > 0 {
        lemma_stage_counts(p, evs.drop_last());
    }
}

/// However the events come, the handler is invoked, and its value turned
/// into the response, only once every parameter has been extracted.
pub proof fn lemma_invoked_after_all_extracted(p: Seq<bool>, evs: Seq<Event>)
    requires
        p.len() <= usize::MAX,
    ensures
        replay(p, initial_stage(p), false, evs).0 is Invoking || replay(
            p,
            initial_stage(p),
            false,
            evs,
        ).0 is Responding ==> extracted_count(p, evs) == p.len(),
{
    lemma_stage_counts(p, evs);
}

} // verus!
