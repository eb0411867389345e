//! The decisions of a search, one receive at a time.
//!
//! A search first sends its discovery request; the caller then asks `poll`
//! what to do next, performs the receive it names (re-arming the read timeout
//! each time), resolves what arrived, and hands the outcome to `record`.
//! Both searches are one machine: with a deadline it accumulates every
//! resolved gateway until the budget is spent; without one it stops at the
//! first resolved gateway.
use vstd::prelude::*;
use crate::gateway::{Gateway, SearchError};

verus! {

/// What one receive came to.
#[derive(Clone, Debug, PartialEq, Eq)]
pub enum Outcome {
    /// A datagram arrived and its responder resolved into a gateway.
    Resolved(Gateway),
    /// A datagram arrived but was malformed, or its responder did not resolve.
    Dropped,
    /// The receive's read timeout elapsed (or it would have blocked).
    TimedOut,
    /// The receive failed for any other reason.
    Failed,
}

/// What the caller does next.
#[derive(Clone, Copy, Debug, PartialEq, Eq)]
pub enum Action {
    /// Set the socket's read timeout to this many milliseconds (`None`: block
    /// without bound), then receive one datagram.
    Receive(Option<u64>),
    /// Stop: the result is ready.
    Finish,
}

/// The state of one search.
pub struct Search {
    /// The overall budget in milliseconds; when present, resolved gateways
    /// accumulate until it is spent.
    pub deadline: Option<u64>,
    /// The read timeout of every receive when there is no deadline.
    pub read_timeout: Option<u64>,
    /// The gateways resolved so far, in arrival order.
    pub found: Vec<Gateway>,
    /// The error that ended the search, if one did.
    pub failure: Option<SearchError>,
    /// Whether the search is over.
    pub finished: bool,
}

/// The mathematical state of a search.
pub struct SearchModel {
    pub deadline: Option<u64>,
    pub read_timeout: Option<u64>,
    pub found: Seq<Gateway>,
    pub failure: Option<SearchError>,
    pub finished: bool,
}

/// One receive of a search: the milliseconds elapsed since the request was
/// sent when the caller polled, and what the receive came to.
pub struct Round {
    pub elapsed: u64,
    pub outcome: Outcome,
}

impl View for Search {
    type V = SearchModel;

    open spec fn view(&self) -> SearchModel {
        SearchModel {
            deadline: self.deadline,
            read_timeout: self.read_timeout,
            found: self.found@,
            failure: self.failure,
            finished: self.finished,
        }
    }
}

/// The state right after the discovery request was sent.
pub open spec fn start(deadline: Option<u64>, read_timeout: Option<u64>) -> SearchModel {
    SearchModel { deadline, read_timeout, found: Seq::empty(), failure: None, finished: false }
}

/// The first-match search: every receive waits `read_timeout`, and a receive
/// that times out is simply tried again.
pub open spec fn start_single(read_timeout: Option<u64>) -> SearchModel {
    start(None, read_timeout)
}

/// The accumulating search; without a timeout it is the first-match search
/// with receives that wait without bound.
pub open spec fn start_multi(timeout: Option<u64>) -> SearchModel {
    match timeout {
        Some(t) => start(Some(t), None),
        None => start_single(None),
    }
}

/// The states that the machine reaches.
pub open spec fn wf_model(m: SearchModel) -> bool {
    match m.deadline {
        Some(_) => m.failure is None,
        None => {
            &&& m.found.len() <= 1
            &&& !(m.found.len() == 1 && m.failure is Some)
            &&& m.finished <==> (m.found.len() == 1 || m.failure is Some)
        },
    }
}

/// The deadline check made before a receive: a search whose budget is spent
/// is over.
pub open spec fn poll_model(m: SearchModel, elapsed: u64) -> SearchModel {
    match m.deadline {
        Some(t) => if !m.finished && elapsed >= t {
            SearchModel { finished: true, ..m }
        } else {
            m
        },
        None => m,
    }
}

/// What the caller is told to do after the deadline check.
pub open spec fn poll_action(m: SearchModel, elapsed: u64) -> Action {
    if poll_model(m, elapsed).finished {
        Action::Finish
    } else {
        match m.deadline {
            Some(t) => Action::Receive(Some((t - elapsed) as u64)),
            None => Action::Receive(m.read_timeout),
        }
    }
}

/// How the outcome of a receive changes a search.
pub open spec fn record_model(m: SearchModel, o: Outcome) -> SearchModel {
    if m.finished {
        m
    } else {
        match o {
            Outcome::Resolved(g) => SearchModel {
                found: m.found.push(g),
                finished: m.deadline is None,
                ..m
            },
            Outcome::Dropped => m,
            Outcome::TimedOut => m,
            Outcome::Failed => SearchModel {
                finished: true,
                failure: if m.deadline is None { Some(SearchError::Transport) } else { None },
                ..m
            },
        }
    }
}

/// One round: the deadline check, then the receive's outcome.
pub open spec fn step(m: SearchModel, r: Round) -> SearchModel {
    record_model(poll_model(m, r.elapsed), r.outcome)
}

/// The state after a sequence of rounds.
pub open spec fn run(m: SearchModel, rounds: Seq<Round>) -> SearchModel
    decreases rounds.len(),
{
    if rounds.len() == 0 {
        m
    } else {
        step(run(m, rounds.drop_last()), rounds.last())
    }
}

/// The gateways that the rounds resolved, in order.
pub open spec fn resolved(rounds: Seq<Round>) -> Seq<Gateway>
    decreases rounds.len(),
{
    if rounds.len() == 0 {
        Seq::empty()
    } else {
        match rounds.last().outcome {
            Outcome::Resolved(g) => resolved(rounds.drop_last()).push(g),
            _ => resolved(rounds.drop_last()),
        }
    }
}

/// The result of the first-match search: nothing while it runs.
pub open spec fn single_result(m: SearchModel) -> Option<Result<Gateway, SearchError>> {
    if !m.finished {
        None
    } else {
        match m.failure {
            Some(e) => Some(Err(e)),
            None => Some(Ok(m.found[0])),
        }
    }
}

/// The result of the accumulating search: nothing while it runs.
pub open spec fn multi_result(m: SearchModel) -> Option<Result<Seq<Gateway>, SearchError>> {
    if !m.finished {
        None
    } else {
        match m.failure {
            Some(e) => Some(Err(e)),
            None => Some(Ok(m.found)),
        }
    }
}

impl Search {
    pub open spec fn wf(&self) -> bool {
        wf_model(self@)
    }

    /// A first-match search whose receives each wait `read_timeout`
    /// milliseconds (`None`: without bound).
    pub fn single(read_timeout: Option<u64>) -> (s: Search)
        ensures
            s@ == start_single(read_timeout),
            s.wf(),
    {
        Search { deadline: None, read_timeout, found: Vec::new(), failure: None, finished: false }
    }

    /// An accumulating search with an overall budget of `timeout`
    /// milliseconds; without one, a first-match search.
    pub fn multi(timeout: Option<u64>) -> (s: Search)
        ensures
            s@ == start_multi(timeout),
            s.wf(),
    {
        match timeout {
            Some(t) => Search {
                deadline: Some(t),
                read_timeout: None,
                found: Vec::new(),
                failure: None,
                finished: false,
            },
            None => Search::single(None),
        }
    }

    /// Decides, `elapsed` milliseconds after the request was sent, whether to
    /// receive again and with which read timeout, or to stop.
    pub fn poll(&mut self, elapsed: u64) -> (a: Action)
        requires
            old(self).wf(),
        ensures
            final(self)@ == poll_model(old(self)@, elapsed),
            final(self).wf(),
            a == poll_action(old(self)@, elapsed),
            old(self).deadline is Some ==> (a matches Action::Receive(Some(d)) ==> d > 0),
    {
        if let Some(t) = self.deadline {
            if !self.finished && elapsed >= t {
                self.finished = true;
            }
        }
        if self.finished {
            Action::Finish
        } else {
            match self.deadline {
                Some(t) => Action::Receive(Some(t - elapsed)),
                None => Action::Receive(self.read_timeout),
            }
        }
    }

    /// Takes in what the last receive came to.
    pub fn record(&mut self, outcome: Outcome)
        requires
            old(self).wf(),
        ensures
            final(self)@ == record_model(old(self)@, outcome),
            final(self).wf(),
    {
        if self.finished {
            return;
        }
        match outcome {
            Outcome::Resolved(g) => {
                self.found.push(g);
                self.finished = self.deadline.is_none();
            },
            Outcome::Dropped => {},
            Outcome::TimedOut => {},
            Outcome::Failed => {
                self.finished = true;
                self.failure = if self.deadline.is_none() {
                    Some(SearchError::Transport)
                } else {
                    None
                };
            },
        }
    }

    pub fn is_finished(&self) -> (r: bool)
        ensures
            r == self.finished,
    {
        self.finished
    }

    /// The result of a first-match search: the gateway that ended it, or the
    /// error; `None` while it runs.
    pub fn gateway(self) -> (r: Option<Result<Gateway, SearchError>>)
        requires
            self.wf(),
            self.deadline is None,
        ensures
            r == single_result(self@),
    {
        if !self.finished {
            return None;
        }
        match self.failure {
            Some(e) => Some(Err(e)),
            None => {
                let mut found = self.found;
                Some(Ok(found.swap_remove(0)))
            },
        }
    }

    /// The result of an accumulating search: every resolved gateway in
    /// arrival order, or the error; `None` while it runs.
    pub fn gateways(self) -> (r: Option<Result<Vec<Gateway>, SearchError>>)
        ensures
            self.finished <==> r is Some,
            r matches Some(Ok(v)) ==> multi_result(self@) == Some(Ok::<Seq<Gateway>, SearchError>(v@)),
            r matches Some(Err(e)) ==> multi_result(self@) == Some(Err::<Seq<Gateway>, SearchError>(e)),
    {
        if !self.finished {
            return None;
        }
        match self.failure {
            Some(e) => Some(Err(e)),
            None => Some(Ok(self.found)),
        }
    }
}

} // verus!
