//! What one response means for its page.
//!
//! A fetch attempt is a single GET. Its response is read in two steps, the
//! head and then the body, and the body is asked for only where the status is
//! a success. From what came back this module decides the page's result and
//! the record that is reported of the attempt. The result never depends on
//! whether a report is made.

use super::page::{FailureReason, Outcome, PageResult, PageView};
use super::telemetry::{FetchTelemetry, TelemetryView};
use vstd::prelude::*;

verus! {

/// One page to fetch: where it is, and where it belongs in its batch.
#[derive(Debug, PartialEq, Eq)]
pub struct FetchRequest {
    pub locator: String,
    pub page_index: usize,
    /// Whether the attempt is reported to the network.
    pub report: bool,
}

/// What contracts say of a [`FetchRequest`].
pub struct RequestView {
    pub locator: Seq<char>,
    pub page_index: nat,
    pub report: bool,
}

impl View for FetchRequest {
    type V = RequestView;

    open spec fn view(&self) -> RequestView {
        RequestView {
            locator: self.locator@,
            page_index: self.page_index as nat,
            report: self.report,
        }
    }
}

/// The head of a response, as far as a fetch reads it. Header values are the
/// raw bytes of the header, `None` where the response has no such header.
#[derive(Debug, PartialEq, Eq)]
pub struct ResponseHead {
    pub status: u16,
    /// The cache-status header.
    pub cache_signal: Option<Vec<u8>>,
    /// The content-length header.
    pub content_length: Option<Vec<u8>>,
}

/// What the transport delivered for one request.
#[derive(Debug, PartialEq, Eq)]
pub enum Exchange {
    /// No response arrived: the connection failed or timed out.
    Unanswered,
    /// A response arrived. `body` holds its bytes once they were read in full;
    /// it is `None` where the body was not asked for or could not be read.
    Answered { head: ResponseHead, body: Option<Vec<u8>> },
}

/// What contracts say of a [`ResponseHead`].
pub struct HeadView {
    pub status: u16,
    pub cache_signal: Option<Seq<u8>>,
    pub content_length: Option<Seq<u8>>,
}

/// What contracts say of an [`Exchange`].
pub enum ExchangeView {
    Unanswered,
    Answered { head: HeadView, body: Option<Seq<u8>> },
}

impl View for ResponseHead {
    type V = HeadView;

    open spec fn view(&self) -> HeadView {
        HeadView {
            status: self.status,
            cache_signal: self.cache_signal.deep_view(),
            content_length: self.content_length.deep_view(),
        }
    }
}

impl View for Exchange {
    type V = ExchangeView;

    open spec fn view(&self) -> ExchangeView {
        match *self {
            Exchange::Unanswered => ExchangeView::Unanswered,
            Exchange::Answered { head, body } => ExchangeView::Answered {
                head: head@,
                body: body.deep_view(),
            },
        }
    }
}

/// The name of the header that tells whether a response came from a cache.
pub fn cache_header() -> (name: &'static str)
    ensures
        name@ == "x-cache"@,
{
    "x-cache"
}

/// The name of the header that declares the length of a response body.
pub fn length_header() -> (name: &'static str)
    ensures
        name@ == "content-length"@,
{
    "content-length"
}

/// The bytes of `HIT`, the one cache signal that means "served from cache".
pub open spec fn hit_signal() -> Seq<u8> {
    seq![72u8, 73u8, 84u8]
}

/// A status in the success class, 200 to 299.
pub open spec fn is_success_status(status: u16) -> bool {
    200 <= status < 300
}

/// The number that a run of decimal digits denotes; 0 for no digits.
pub open spec fn digits_value(digits: Seq<u8>) -> nat
    decreases digits.len(),
{
    if digits.len() == 0 {
        0
    } else {
        digits_value(digits.drop_last()) * 10 + (digits.last() - 48) as nat
    }
}

/// One or more ASCII decimal digits.
pub open spec fn is_digits(digits: Seq<u8>) -> bool {
    &&& digits.len() > 0
    &&& forall|i: int| 0 <= i < digits.len() ==> 48 <= #[trigger] digits[i] <= 57
}

/// The digits of a length token: the token without its leading `+`, if it has
/// one.
pub open spec fn length_digits(token: Seq<u8>) -> Seq<u8> {
    if token.len() > 0 && token[0] == 43 {
        token.skip(1)
    } else {
        token
    }
}

/// The length that a content-length token declares: its decimal value, where
/// the token is digits, optionally after one `+`, and the value fits `usize`.
pub open spec fn parsed_length(token: Seq<u8>) -> Option<usize> {
    let digits = length_digits(token);
    if is_digits(digits) && digits_value(digits) <= usize::MAX {
        Some(digits_value(digits) as usize)
    } else {
        None
    }
}

impl HeadView {
    /// Served from cache: the cache signal is exactly `HIT`. An absent signal,
    /// or any other, means not cached.
    pub open spec fn cached(self) -> bool {
        self.cache_signal == Some(hit_signal())
    }

    /// The byte length the response declares; 0 where it declares none that
    /// can be read.
    pub open spec fn declared_length(self) -> nat {
        match self.content_length {
            Some(token) => match parsed_length(token) {
                Some(n) => n as nat,
                None => 0,
            },
            None => 0,
        }
    }
}

impl ExchangeView {
    /// How the attempt ended. No response, or a status outside the success
    /// class, is a transport failure whatever else came. A success status
    /// whose body did not arrive is a decode failure.
    pub open spec fn outcome(self) -> Outcome {
        match self {
            ExchangeView::Unanswered => Outcome::Failure(FailureReason::Transport),
            ExchangeView::Answered { head, body } => if !is_success_status(head.status) {
                Outcome::Failure(FailureReason::Transport)
            } else if body is None {
                Outcome::Failure(FailureReason::Decode)
            } else {
                Outcome::Success
            },
        }
    }

    /// The page bytes: the body as received on success, nothing otherwise.
    pub open spec fn payload(self) -> Seq<u8> {
        match self {
            ExchangeView::Answered { head, body: Some(bytes) } if is_success_status(head.status) => bytes,
            _ => Seq::empty(),
        }
    }

    /// The result for the page at `page_index`.
    pub open spec fn page(self, page_index: nat) -> PageView {
        PageView { page_index, payload: self.payload(), outcome: self.outcome() }
    }

    /// Served from cache; never so where no response arrived.
    pub open spec fn cached(self) -> bool {
        match self {
            ExchangeView::Unanswered => false,
            ExchangeView::Answered { head, .. } => head.cached(),
        }
    }

    /// The byte length the response declared; 0 where no response arrived.
    pub open spec fn declared_length(self) -> nat {
        match self {
            ExchangeView::Unanswered => 0,
            ExchangeView::Answered { head, .. } => head.declared_length(),
        }
    }

    /// The record of an attempt on `locator` that took `elapsed_ms`.
    pub open spec fn telemetry(self, locator: Seq<char>, elapsed_ms: nat) -> TelemetryView {
        TelemetryView {
            url: locator,
            success: self.outcome() is Success,
            cached: self.cached(),
            bytes: self.declared_length(),
            duration: elapsed_ms,
        }
    }
}

/// A fetch attempt, concluded: the page's result, and the record to report
/// where the request asked for one.
#[derive(Debug, PartialEq, Eq)]
pub struct Conclusion {
    pub result: PageResult,
    pub telemetry: Option<FetchTelemetry>,
}

/// What contracts say of a [`Conclusion`].
pub struct ConclusionView {
    pub result: PageView,
    pub telemetry: Option<TelemetryView>,
}

impl View for Conclusion {
    type V = ConclusionView;

    open spec fn view(&self) -> ConclusionView {
        ConclusionView {
            result: self.result@,
            telemetry: match self.telemetry {
                Some(record) => Some(record@),
                None => None,
            },
        }
    }
}

impl RequestView {
    /// What an attempt on this request concludes to, given what the transport
    /// delivered and the time the attempt took. A record is made exactly where
    /// the request asks for a report.
    pub open spec fn concluded(self, exchange: ExchangeView, elapsed_ms: nat) -> ConclusionView {
        ConclusionView {
            result: exchange.page(self.page_index),
            telemetry: if self.report {
                Some(exchange.telemetry(self.locator, elapsed_ms))
            } else {
                None
            },
        }
    }
}

/// Whether `status` is in the success class.
pub fn status_is_success(status: u16) -> (b: bool)
    ensures
        b == is_success_status(status),
{
    200 <= status && status < 300
}

/// Whether the body of a response with this head is to be read.
pub fn wants_body(head: &ResponseHead) -> (b: bool)
    ensures
        b == is_success_status(head.status),
{
    status_is_success(head.status)
}

/// Whether a cache signal says the response came from a cache.
pub fn cache_hit(signal: &Option<Vec<u8>>) -> (hit: bool)
    ensures
        hit == (signal.deep_view() == Some(hit_signal())),
{
    match signal {
        Some(bytes) => {
            let hit = bytes.len() == 3 && bytes[0] == 72 && bytes[1] == 73 && bytes[2] == 84;
            proof {
                if hit {
                    assert(bytes.deep_view() =~= hit_signal());
                } else {
                    assert(bytes.deep_view().len() == bytes.len());
                    if bytes.len() == 3 {
                        assert(bytes.deep_view()[0] == bytes[0]);
                        assert(bytes.deep_view()[1] == bytes[1]);
                        assert(bytes.deep_view()[2] == bytes[2]);
                    }
                }
            }
            hit
        },
        None => false,
    }
}

/// A longer run of digits denotes no smaller a number.
pub proof fn lemma_digits_value_grows(digits: Seq<u8>, k: int)
    requires
        0 <= k <= digits.len(),
        forall|i: int| 0 <= i < digits.len() ==> 48 <= #[trigger] digits[i] <= 57,
    ensures
        digits_value(digits.take(k)) <= digits_value(digits),
    decreases digits.len() - k,
{
    if k < digits.len() {
        lemma_digits_value_grows(digits, k + 1);
        assert(digits.take(k + 1).drop_last() =~= digits.take(k));
    } else {
        assert(digits.take(k) =~= digits);
    }
}

/// Reads a content-length token.
pub fn parse_length(token: &Vec<u8>) -> (n: Option<usize>)
    ensures
        n == parsed_length(token@),
{
    let len = token.len();
    let start: usize = if len > 0 && token[0] == 43 {
        1
    } else {
        0
    };
    let ghost digits = length_digits(token@);
    assert(digits =~= token@.skip(start as int));
    if start == len {
        return None;
    }
    let mut value: usize = 0;
    let mut i: usize = start;
    while i < len
        invariant
            start <= i <= len,
            len == token@.len(),
            digits == token@.skip(start as int),
            digits == length_digits(token@),
            forall|j: int| 0 <= j < i - start ==> 48 <= #[trigger] digits[j] <= 57,
            value == digits_value(digits.take(i - start)),
        decreases len - i,
    {
        let b = token[i];
        if b < 48 || b > 57 {
            assert(digits[i - start] == b);
            return None;
        }
        let d: usize = (b - 48) as usize;
        assert(digits.take(i - start + 1).drop_last() =~= digits.take(i - start));
        assert(digits.take(i - start + 1).last() == b);
        let ghost next = value * 10 + d;
        assert(next == digits_value(digits.take(i - start + 1)));
        if value > (usize::MAX - d) / 10 {
            proof {
                // The digits read so far already exceed what fits; if all of
                // the token is digits, so does the whole.
                assert(next > usize::MAX);
                if is_digits(digits) {
                    lemma_digits_value_grows(digits, i - start + 1);
                }
            }
            return None;
        }
        value = value * 10 + d;
        i = i + 1;
    }
    assert(digits.take(i - start) =~= digits);
    Some(value)
}

/// The byte length a response head declares.
pub fn declared_length(head: &ResponseHead) -> (n: usize)
    ensures
        n == head@.declared_length(),
{
    match &head.content_length {
        Some(token) => {
            assert(token.deep_view() =~= token@);
            match parse_length(token) {
                Some(n) => n,
                None => 0,
            }
        },
        None => 0,
    }
}

/// Concludes the attempt that `request` describes from what the transport
/// delivered and the time the attempt took.
pub fn conclude(request: &FetchRequest, exchange: Exchange, elapsed_ms: u128) -> (c: Conclusion)
    ensures
        c@ == request@.concluded(exchange@, elapsed_ms as nat),
{
    let (result, cached, bytes): (PageResult, bool, usize) = match exchange {
        Exchange::Unanswered => (
            PageResult::failure(request.page_index, FailureReason::Transport),
            false,
            0,
        ),
        Exchange::Answered { head, body } => {
            let cached = cache_hit(&head.cache_signal);
            let bytes = declared_length(&head);
            let result = if !status_is_success(head.status) {
                PageResult::failure(request.page_index, FailureReason::Transport)
            } else {
                match body {
                    Some(payload) => {
                        assert(Some(payload).deep_view() == Some(payload@));
                        PageResult::success(request.page_index, payload)
                    },
                    None => PageResult::failure(request.page_index, FailureReason::Decode),
                }
            };
            (result, cached, bytes)
        },
    };
    let telemetry = if request.report {
        Some(
            FetchTelemetry {
                url: request.locator.clone(),
                success: result.is_success(),
                cached,
                bytes,
                duration: elapsed_ms,
            },
        )
    } else {
        None
    };
    Conclusion { result, telemetry }
}

/// Reporting never alters a page: the same delivery concludes to the same
/// result whether or not the attempt is reported.
pub proof fn lemma_telemetry_decoupled(request: RequestView, exchange: ExchangeView, elapsed_ms: nat)
    ensures
        (RequestView { report: true, ..request }).concluded(exchange, elapsed_ms).result == (RequestView {
            report: false,
            ..request
        }).concluded(exchange, elapsed_ms).result,
{
}

/// A concluded page carries bytes only where the fetch succeeded, and it
/// succeeded exactly where a success status came with its body.
pub proof fn lemma_concluded_page(request: RequestView, exchange: ExchangeView, elapsed_ms: nat)
    ensures
        request.concluded(exchange, elapsed_ms).result.consistent(),
        request.concluded(exchange, elapsed_ms).result.page_index == request.page_index,
        request.concluded(exchange, elapsed_ms).result.outcome is Success <==> (exchange matches ExchangeView::Answered {
            head,
            body,
        } && is_success_status(head.status) && body is Some),
{
}

} // verus!
