//! The result of fetching one page.

use vstd::prelude::*;

verus! {

/// Why a page could not be delivered.
#[derive(Clone, Copy, Debug, PartialEq, Eq, Structural)]
pub enum FailureReason {
    /// The request went unanswered, or the answer was not a success status.
    /// A later attempt may succeed.
    Transport,
    /// A success status arrived but its body could not be read as page bytes.
    Decode,
}

/// How a fetch attempt ended.
#[derive(Clone, Copy, Debug, PartialEq, Eq, Structural)]
pub enum Outcome {
    Success,
    Failure(FailureReason),
}

/// What contracts say of a [`PageResult`].
pub struct PageView {
    pub page_index: nat,
    pub payload: Seq<u8>,
    pub outcome: Outcome,
}

impl PageView {
    /// Only a successful fetch carries bytes.
    pub open spec fn consistent(self) -> bool {
        self.outcome is Failure ==> self.payload.len() == 0
    }
}

/// The outcome of fetching the page that the caller placed at `page_index`.
#[derive(Debug, PartialEq, Eq)]
pub struct PageResult {
    page_index: usize,
    payload: Vec<u8>,
    outcome: Outcome,
}

impl View for PageResult {
    type V = PageView;

    closed spec fn view(&self) -> PageView {
        PageView {
            page_index: self.page_index as nat,
            payload: self.payload@,
            outcome: self.outcome,
        }
    }
}

impl Clone for PageResult {
    fn clone(&self) -> (r: PageResult)
        ensures
            r@ == self@,
    {
        proof {
            use_type_invariant(self);
        }
        let payload = self.payload.clone();
        assert(payload@ =~= self.payload@);
        PageResult { page_index: self.page_index, payload, outcome: self.outcome }
    }
}

impl PageResult {
    #[verifier::type_invariant]
    spec fn consistent(self) -> bool {
        self.outcome is Failure ==> self.payload@.len() == 0
    }

    /// A page that arrived, with its bytes as they were received.
    pub fn success(page_index: usize, payload: Vec<u8>) -> (r: PageResult)
        ensures
            r@ == (PageView { page_index: page_index as nat, payload: payload@, outcome: Outcome::Success }),
    {
        PageResult { page_index, payload, outcome: Outcome::Success }
    }

    /// A page that did not arrive.
    pub fn failure(page_index: usize, reason: FailureReason) -> (r: PageResult)
        ensures
            r@ == (PageView {
                page_index: page_index as nat,
                payload: Seq::<u8>::empty(),
                outcome: Outcome::Failure(reason),
            }),
    {
        PageResult { page_index, payload: Vec::new(), outcome: Outcome::Failure(reason) }
    }

    /// A page whose fetch was lost before it could answer: it counts as a
    /// transport failure.
    pub fn lost(page_index: usize) -> (r: PageResult)
        ensures
            r@ == (PageView {
                page_index: page_index as nat,
                payload: Seq::<u8>::empty(),
                outcome: Outcome::Failure(FailureReason::Transport),
            }),
    {
        PageResult::failure(page_index, FailureReason::Transport)
    }

    /// The position the caller gave this page.
    pub fn page_index(&self) -> (i: usize)
        ensures
            i == self@.page_index,
            self@.consistent(),
    {
        proof {
            use_type_invariant(self);
        }
        self.page_index
    }

    /// The page bytes; empty unless the fetch succeeded.
    pub fn payload(&self) -> (bytes: &Vec<u8>)
        ensures
            bytes@ == self@.payload,
            self@.consistent(),
    {
        proof {
            use_type_invariant(self);
        }
        &self.payload
    }

    /// How the fetch ended.
    pub fn outcome(&self) -> (o: Outcome)
        ensures
            o == self@.outcome,
    {
        self.outcome
    }

    /// Whether the fetch succeeded.
    pub fn is_success(&self) -> (b: bool)
        ensures
            b == (self@.outcome is Success),
    {
        match self.outcome {
            Outcome::Success => true,
            Outcome::Failure(_) => false,
        }
    }

    /// Gives up the page bytes.
    pub fn into_payload(self) -> (bytes: Vec<u8>)
        ensures
            bytes@ == self@.payload,
    {
        self.payload
    }
}

} // verus!
