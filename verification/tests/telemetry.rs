use dexloader::connection::telemetry::{
    ChallengeAnswer, FetchTelemetry, ReportReply, ReportState, TelemetryConfig, TelemetryReporter,
};

fn record() -> FetchTelemetry {
    FetchTelemetry {
        url: String::from("https://pages.example/1.jpg"),
        success: true,
        cached: false,
        bytes: 1024,
        duration: 87,
    }
}

fn challenge(token: &str) -> ReportReply {
    ReportReply::Answered { status: 412, challenge: Some(String::from(token)) }
}

#[test]
fn the_network_endpoint_is_the_default() {
    let c = TelemetryConfig::mangadex();
    assert_eq!(c.endpoint, "https://api.mangadex.network/report");
    assert_eq!(c.challenge_status, 412);
    assert_eq!(c.challenge_header, "X-Captcha-Sitekey");
    assert_eq!(c.answer_header, "X-Captcha-Result");
}

#[test]
fn a_challenge_is_answered_once() {
    let mut reporter = TelemetryReporter::new(TelemetryConfig::mangadex(), record());
    let mut posts = 0;
    let first = reporter.next_request().expect("the first submission");
    posts += 1;
    assert_eq!(first.endpoint, "https://api.mangadex.network/report");
    assert_eq!(first.record, record());
    assert_eq!(first.answer, None);
    reporter.on_reply(challenge("site-key-1"));
    assert_eq!(reporter.state(), ReportState::ReportChallenged);
    assert!(!reporter.is_finished());
    let second = reporter.next_request().expect("the retry");
    posts += 1;
    assert_eq!(second.endpoint, "https://api.mangadex.network/report");
    assert_eq!(second.record, record());
    assert_eq!(
        second.answer,
        Some(ChallengeAnswer {
            header: String::from("X-Captcha-Result"),
            token: String::from("site-key-1"),
        })
    );
    reporter.on_reply(ReportReply::Answered { status: 200, challenge: None });
    assert_eq!(reporter.state(), ReportState::ReportRetried);
    assert!(reporter.is_finished());
    assert_eq!(reporter.next_request(), None);
    assert_eq!(posts, 2);
    assert_eq!(reporter.submissions(), 2);
}

#[test]
fn a_second_challenge_is_not_answered() {
    let mut reporter = TelemetryReporter::new(TelemetryConfig::mangadex(), record());
    reporter.on_reply(challenge("a"));
    reporter.on_reply(challenge("b"));
    assert_eq!(reporter.state(), ReportState::ReportRetried);
    assert_eq!(reporter.next_request(), None);
    reporter.on_reply(challenge("c"));
    assert_eq!(reporter.state(), ReportState::ReportRetried);
    assert_eq!(reporter.submissions(), 2);
}

#[test]
fn an_accepted_report_is_sent_once() {
    for status in [200u16, 204, 400, 404, 500] {
        let mut reporter = TelemetryReporter::new(TelemetryConfig::mangadex(), record());
        assert_eq!(reporter.state(), ReportState::ReportPending);
        assert_eq!(reporter.submissions(), 0);
        assert!(reporter.next_request().is_some());
        reporter.on_reply(ReportReply::Answered { status, challenge: None });
        assert_eq!(reporter.state(), ReportState::ReportSent);
        assert_eq!(reporter.next_request(), None);
        assert_eq!(reporter.submissions(), 1);
    }
}

#[test]
fn a_token_without_the_challenge_status_is_no_challenge() {
    let mut reporter = TelemetryReporter::new(TelemetryConfig::mangadex(), record());
    reporter.on_reply(ReportReply::Answered { status: 200, challenge: Some(String::from("t")) });
    assert_eq!(reporter.state(), ReportState::ReportSent);
    assert_eq!(reporter.next_request(), None);
}

#[test]
fn a_challenge_without_a_token_ends_the_report() {
    let mut reporter = TelemetryReporter::new(TelemetryConfig::mangadex(), record());
    reporter.on_reply(ReportReply::Answered { status: 412, challenge: None });
    assert_eq!(reporter.state(), ReportState::ReportSent);
    assert_eq!(reporter.next_request(), None);
    assert_eq!(reporter.submissions(), 1);
}

#[test]
fn an_undelivered_report_is_let_go() {
    let mut reporter = TelemetryReporter::new(TelemetryConfig::mangadex(), record());
    reporter.on_reply(ReportReply::Undelivered);
    assert_eq!(reporter.state(), ReportState::ReportSent);
    assert!(reporter.is_finished());
    reporter.on_reply(challenge("late"));
    assert_eq!(reporter.state(), ReportState::ReportSent);
    assert_eq!(reporter.submissions(), 1);

    let mut retried = TelemetryReporter::new(TelemetryConfig::mangadex(), record());
    retried.on_reply(challenge("k"));
    retried.on_reply(ReportReply::Undelivered);
    assert_eq!(retried.state(), ReportState::ReportRetried);
    assert_eq!(retried.submissions(), 2);
}

#[test]
fn the_endpoint_and_headers_are_the_configured_ones() {
    let config = TelemetryConfig {
        endpoint: String::from("https://reports.example/v2"),
        challenge_status: 428,
        challenge_header: String::from("X-Ask"),
        answer_header: String::from("X-Tell"),
    };
    let mut reporter = TelemetryReporter::new(config.clone(), record());
    assert_eq!(reporter.next_request().expect("first").endpoint, "https://reports.example/v2");
    reporter.on_reply(challenge("ignored"));
    assert_eq!(reporter.state(), ReportState::ReportSent);

    let mut reporter = TelemetryReporter::new(config, record());
    reporter.on_reply(ReportReply::Answered { status: 428, challenge: Some(String::from("tok")) });
    let retry = reporter.next_request().expect("the retry");
    assert_eq!(retry.endpoint, "https://reports.example/v2");
    assert_eq!(
        retry.answer,
        Some(ChallengeAnswer { header: String::from("X-Tell"), token: String::from("tok") })
    );
}
