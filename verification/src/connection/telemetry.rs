//! Delivery reports to the image network.
//!
//! After a fetch attempt the client may tell the network how it went. The
//! endpoint may answer a report with a challenge; the report is then sent once
//! more with the challenge token attached, and whatever comes of that second
//! submission is final. Nothing that happens to a report reaches the page it
//! describes.

use vstd::prelude::*;

verus! {

/// What is reported of one fetch attempt.
#[derive(Debug, PartialEq, Eq)]
pub struct FetchTelemetry {
    /// The locator that was requested.
    pub url: String,
    pub success: bool,
    /// Whether the response was served from an edge cache.
    pub cached: bool,
    /// The byte length the response declared.
    pub bytes: usize,
    /// Wall-clock time of the attempt, in milliseconds.
    pub duration: u128,
}

/// What contracts say of a [`FetchTelemetry`].
pub struct TelemetryView {
    pub url: Seq<char>,
    pub success: bool,
    pub cached: bool,
    pub bytes: nat,
    pub duration: nat,
}

impl View for FetchTelemetry {
    type V = TelemetryView;

    open spec fn view(&self) -> TelemetryView {
        TelemetryView {
            url: self.url@,
            success: self.success,
            cached: self.cached,
            bytes: self.bytes as nat,
            duration: self.duration as nat,
        }
    }
}

impl Clone for FetchTelemetry {
    fn clone(&self) -> (r: FetchTelemetry)
        ensures
            r@ == self@,
    {
        FetchTelemetry {
            url: self.url.clone(),
            success: self.success,
            cached: self.cached,
            bytes: self.bytes,
            duration: self.duration,
        }
    }
}

/// Where reports go and how the endpoint asks for, and is given, a challenge
/// answer. The network has changed these more than once, so they are data.
#[derive(Debug, PartialEq, Eq)]
pub struct TelemetryConfig {
    /// The address reports are posted to.
    pub endpoint: String,
    /// The status with which the endpoint demands a challenge answer.
    pub challenge_status: u16,
    /// The response header that carries the challenge token.
    pub challenge_header: String,
    /// The request header in which the token is sent back.
    pub answer_header: String,
}

/// What contracts say of a [`TelemetryConfig`].
pub struct ConfigView {
    pub endpoint: Seq<char>,
    pub challenge_status: u16,
    pub challenge_header: Seq<char>,
    pub answer_header: Seq<char>,
}

impl View for TelemetryConfig {
    type V = ConfigView;

    open spec fn view(&self) -> ConfigView {
        ConfigView {
            endpoint: self.endpoint@,
            challenge_status: self.challenge_status,
            challenge_header: self.challenge_header@,
            answer_header: self.answer_header@,
        }
    }
}

impl Clone for TelemetryConfig {
    fn clone(&self) -> (r: TelemetryConfig)
        ensures
            r@ == self@,
    {
        TelemetryConfig {
            endpoint: self.endpoint.clone(),
            challenge_status: self.challenge_status,
            challenge_header: self.challenge_header.clone(),
            answer_header: self.answer_header.clone(),
        }
    }
}

impl TelemetryConfig {
    /// The report endpoint of the MangaDex@Home network.
    pub fn mangadex() -> (c: TelemetryConfig)
        ensures
            c@ == (ConfigView {
                endpoint: "https://api.mangadex.network/report"@,
                challenge_status: 412,
                challenge_header: "X-Captcha-Sitekey"@,
                answer_header: "X-Captcha-Result"@,
            }),
    {
        TelemetryConfig {
            endpoint: String::from_str("https://api.mangadex.network/report"),
            challenge_status: 412,
            challenge_header: String::from_str("X-Captcha-Sitekey"),
            answer_header: String::from_str("X-Captcha-Result"),
        }
    }
}

/// What came of posting a report.
#[derive(Debug, PartialEq, Eq)]
pub enum ReportReply {
    /// The report could not be delivered at all.
    Undelivered,
    /// The endpoint answered. `challenge` is the value of the challenge
    /// header, where the response carried one that reads as text.
    Answered { status: u16, challenge: Option<String> },
}

/// What contracts say of a [`ReportReply`].
pub enum ReplyView {
    Undelivered,
    Answered { status: u16, challenge: Option<Seq<char>> },
}

impl View for ReportReply {
    type V = ReplyView;

    open spec fn view(&self) -> ReplyView {
        match *self {
            ReportReply::Undelivered => ReplyView::Undelivered,
            ReportReply::Answered { status, challenge } => ReplyView::Answered {
                status,
                challenge: challenge.deep_view(),
            },
        }
    }
}

impl ReplyView {
    /// The token of a reply that demands a challenge answer: the reply has the
    /// challenge status and carries a token.
    pub open spec fn challenge_token(self, challenge_status: u16) -> Option<Seq<char>> {
        match self {
            ReplyView::Answered { status, challenge } if status == challenge_status => challenge,
            _ => None,
        }
    }
}

/// Where a report stands.
#[derive(Clone, Copy, Debug, PartialEq, Eq, Structural)]
pub enum ReportState {
    /// The first submission has not been answered yet.
    ReportPending,
    /// The first submission settled the report, delivered or not.
    ReportSent,
    /// The endpoint demanded a challenge answer; the second submission has not
    /// been answered yet.
    ReportChallenged,
    /// The second submission was made; its outcome is final.
    ReportRetried,
}

impl ReportState {
    /// No further submission follows.
    pub open spec fn is_final(self) -> bool {
        self is ReportSent || self is ReportRetried
    }

    /// The state after `reply` answers the submission that is outstanding in
    /// `self`. A final state absorbs every reply.
    pub open spec fn after(self, reply: ReplyView, challenge_status: u16) -> ReportState {
        match self {
            ReportState::ReportPending => if reply.challenge_token(challenge_status) is Some {
                ReportState::ReportChallenged
            } else {
                ReportState::ReportSent
            },
            ReportState::ReportChallenged => ReportState::ReportRetried,
            ReportState::ReportSent => ReportState::ReportSent,
            ReportState::ReportRetried => ReportState::ReportRetried,
        }
    }

    /// The state after the replies in `replies` arrived in turn.
    pub open spec fn after_all(self, replies: Seq<ReplyView>, challenge_status: u16) -> ReportState
        decreases replies.len(),
    {
        if replies.len() == 0 {
            self
        } else {
            self.after(replies[0], challenge_status).after_all(
                replies.drop_first(),
                challenge_status,
            )
        }
    }

    /// How many submissions are made when the replies in `replies` arrive in
    /// turn: one for each reply that finds the report not yet final.
    pub open spec fn submissions(self, replies: Seq<ReplyView>, challenge_status: u16) -> nat
        decreases replies.len(),
    {
        if replies.len() == 0 || self.is_final() {
            0
        } else {
            1 + self.after(replies[0], challenge_status).submissions(
                replies.drop_first(),
                challenge_status,
            )
        }
    }
}

/// The answer to a challenge: which request header carries it, and the token.
#[derive(Debug, PartialEq, Eq)]
pub struct ChallengeAnswer {
    pub header: String,
    pub token: String,
}

/// One submission of a report.
#[derive(Debug, PartialEq, Eq)]
pub struct ReportRequest {
    pub endpoint: String,
    pub record: FetchTelemetry,
    /// Present on the second submission only.
    pub answer: Option<ChallengeAnswer>,
}

/// What contracts say of a [`ReportRequest`]; `answer` is the header name and
/// the token.
pub struct RequestView {
    pub endpoint: Seq<char>,
    pub record: TelemetryView,
    pub answer: Option<(Seq<char>, Seq<char>)>,
}

impl View for ReportRequest {
    type V = RequestView;

    open spec fn view(&self) -> RequestView {
        RequestView {
            endpoint: self.endpoint@,
            record: self.record@,
            answer: match self.answer {
                Some(a) => Some((a.header@, a.token@)),
                None => None,
            },
        }
    }
}

/// What contracts say of a [`TelemetryReporter`].
pub struct ReporterView {
    pub config: ConfigView,
    pub record: TelemetryView,
    pub state: ReportState,
    /// The token of the challenge, while it awaits its answer.
    pub token: Option<Seq<char>>,
}

impl ReporterView {
    /// The submission that is outstanding, if any: the plain report at first,
    /// the same report with the challenge answer after a challenge.
    pub open spec fn outstanding(self) -> Option<RequestView> {
        match self.state {
            ReportState::ReportPending => Some(
                RequestView { endpoint: self.config.endpoint, record: self.record, answer: None },
            ),
            ReportState::ReportChallenged => Some(
                RequestView {
                    endpoint: self.config.endpoint,
                    record: self.record,
                    answer: Some((self.config.answer_header, self.token->0)),
                },
            ),
            _ => None,
        }
    }

    /// The reporter after `reply` arrived.
    pub open spec fn after(self, reply: ReplyView) -> ReporterView {
        let next = self.state.after(reply, self.config.challenge_status);
        ReporterView {
            config: self.config,
            record: self.record,
            state: next,
            token: if next is ReportChallenged {
                reply.challenge_token(self.config.challenge_status)
            } else {
                None
            },
        }
    }
}

/// A report's progress, with the challenge token where one is held.
#[derive(Debug)]
enum Progress {
    Pending,
    Sent,
    Challenged(String),
    Retried,
}

/// Sees one report through: the first submission and, if the endpoint demands
/// it, the single retry.
#[derive(Debug)]
pub struct TelemetryReporter {
    config: TelemetryConfig,
    record: FetchTelemetry,
    progress: Progress,
}

impl View for TelemetryReporter {
    type V = ReporterView;

    closed spec fn view(&self) -> ReporterView {
        ReporterView {
            config: self.config@,
            record: self.record@,
            state: match self.progress {
                Progress::Pending => ReportState::ReportPending,
                Progress::Sent => ReportState::ReportSent,
                Progress::Challenged(_) => ReportState::ReportChallenged,
                Progress::Retried => ReportState::ReportRetried,
            },
            token: match self.progress {
                Progress::Challenged(token) => Some(token@),
                _ => None,
            },
        }
    }
}

impl TelemetryReporter {
    /// A reporter for `record`, with its first submission outstanding.
    pub fn new(config: TelemetryConfig, record: FetchTelemetry) -> (r: TelemetryReporter)
        ensures
            r@ == (ReporterView {
                config: config@,
                record: record@,
                state: ReportState::ReportPending,
                token: None,
            }),
    {
        TelemetryReporter { config, record, progress: Progress::Pending }
    }

    /// Where the report stands.
    pub fn state(&self) -> (s: ReportState)
        ensures
            s == self@.state,
    {
        match self.progress {
            Progress::Pending => ReportState::ReportPending,
            Progress::Sent => ReportState::ReportSent,
            Progress::Challenged(_) => ReportState::ReportChallenged,
            Progress::Retried => ReportState::ReportRetried,
        }
    }

    /// Whether the report is settled.
    pub fn is_finished(&self) -> (b: bool)
        ensures
            b == self@.state.is_final(),
    {
        match self.progress {
            Progress::Sent | Progress::Retried => true,
            _ => false,
        }
    }

    /// How many submissions have been answered: never more than two.
    pub fn submissions(&self) -> (n: u8)
        ensures
            n == self@.state.answered(),
            n <= 2,
    {
        match self.progress {
            Progress::Pending => 0,
            Progress::Sent => 1,
            Progress::Challenged(_) => 1,
            Progress::Retried => 2,
        }
    }

    /// The submission to make next, or `None` once the report is settled.
    pub fn next_request(&self) -> (r: Option<ReportRequest>)
        ensures
            r.is_some() == !self@.state.is_final(),
            r matches Some(req) ==> Some(req@) == self@.outstanding(),
    {
        match &self.progress {
            Progress::Pending => Some(
                ReportRequest {
                    endpoint: self.config.endpoint.clone(),
                    record: self.record.clone(),
                    answer: None,
                },
            ),
            Progress::Challenged(token) => Some(
                ReportRequest {
                    endpoint: self.config.endpoint.clone(),
                    record: self.record.clone(),
                    answer: Some(
                        ChallengeAnswer {
                            header: self.config.answer_header.clone(),
                            token: token.clone(),
                        },
                    ),
                },
            ),
            _ => None,
        }
    }

    /// Takes in what came of the outstanding submission. A settled reporter
    /// ignores it.
    pub fn on_reply(&mut self, reply: ReportReply)
        ensures
            final(self)@ == old(self)@.after(reply@),
    {
        let next = match &self.progress {
            Progress::Pending => match reply {
                ReportReply::Answered { status, challenge: Some(token) } => {
                    if status == self.config.challenge_status {
                        Progress::Challenged(token)
                    } else {
                        Progress::Sent
                    }
                },
                _ => Progress::Sent,
            },
            Progress::Challenged(_) => Progress::Retried,
            Progress::Sent => Progress::Sent,
            Progress::Retried => Progress::Retried,
        };
        self.progress = next;
    }
}

impl ReportState {
    /// How many submissions have been answered when a report stands here.
    pub open spec fn answered(self) -> nat {
        match self {
            ReportState::ReportPending => 0,
            ReportState::ReportSent => 1,
            ReportState::ReportChallenged => 1,
            ReportState::ReportRetried => 2,
        }
    }
}

/// A report is submitted once, or twice where the first answer was a
/// challenge that carried a token, and never more: whatever the endpoint
/// answers, and however often.
pub proof fn lemma_at_most_one_retry(replies: Seq<ReplyView>, challenge_status: u16)
    ensures
        ReportState::ReportPending.submissions(replies, challenge_status) <= 2,
        ReportState::ReportPending.submissions(replies, challenge_status) == 2 <==> replies.len()
            >= 2 && replies[0].challenge_token(challenge_status) is Some,
        replies.len() >= 2 ==> ReportState::ReportPending.after_all(
            replies,
            challenge_status,
        ).is_final(),
{
    let start = ReportState::ReportPending;
    if replies.len() > 0 {
        let first = start.after(replies[0], challenge_status);
        let rest = replies.drop_first();
        assert(start.submissions(replies, challenge_status) == 1 + first.submissions(
            rest,
            challenge_status,
        ));
        assert(start.after_all(replies, challenge_status) == first.after_all(
            rest,
            challenge_status,
        ));
        if first.is_final() {
            lemma_final_absorbs(first, rest, challenge_status);
        } else if rest.len() > 0 {
            let second = first.after(rest[0], challenge_status);
            lemma_final_absorbs(second, rest.drop_first(), challenge_status);
            assert(first.submissions(rest, challenge_status) == 1 + second.submissions(
                rest.drop_first(),
                challenge_status,
            ));
            assert(first.after_all(rest, challenge_status) == second.after_all(
                rest.drop_first(),
                challenge_status,
            ));
        } else {
            assert(first.submissions(rest, challenge_status) == 0);
        }
    }
}

/// A settled report stays as it is and makes no further submission.
pub proof fn lemma_final_absorbs(state: ReportState, replies: Seq<ReplyView>, challenge_status: u16)
    requires
        state.is_final(),
    ensures
        state.after_all(replies, challenge_status) == state,
        state.submissions(replies, challenge_status) == 0,
    decreases replies.len(),
{
    if replies.len() > 0 {
        lemma_final_absorbs(state, replies.drop_first(), challenge_status);
    }
}

} // verus!
