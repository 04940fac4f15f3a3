use wei_docker_linux::codec::JsonError;
use wei_docker_linux::pull::{
    daemon_socket, failure_notice, pull_request, scan_markers, Outcome, PullAction, PullEvent,
    PullPhase, PullSession,
};
use wei_docker_linux::reporter::{
    report, ReportAction, ReportEvent, ReportPhase, REPORT_INTERVAL_SECONDS,
};

fn arguments(list: &[&str]) -> Vec<String> {
    list.iter().map(|argument| argument.to_string()).collect()
}

fn reading(list: &[&str]) -> PullSession {
    let mut session = PullSession::begin(&arguments(list), "/root/.wei");
    assert_eq!(session.action(), PullAction::Connect);
    let mut action = session.step(PullEvent::Succeeded).action;
    if action == PullAction::StartReporter {
        action = session.step(PullEvent::Succeeded).action;
    }
    assert_eq!(action, PullAction::CreateDirectory);
    assert_eq!(session.step(PullEvent::Succeeded).action, PullAction::SendRequest);
    assert_eq!(session.step(PullEvent::Succeeded).action, PullAction::Read);
    session
}

#[test]
fn scenario_no_arguments_is_a_usage_error() {
    for list in [arguments(&[]), arguments(&["wei-docker-linux"])] {
        let mut session = PullSession::begin(&list, "/root/.wei");
        assert_eq!(session.phase, PullPhase::Done(Outcome::Usage));
        assert_eq!(session.action(), PullAction::Finish(Outcome::Usage));
        assert_eq!(session.step(PullEvent::Succeeded).action, PullAction::Finish(Outcome::Usage));
    }
    assert_eq!(Outcome::Usage.code(), 400);
    assert!(Outcome::Usage.message().starts_with("Usage: "));
    assert_eq!(
        Outcome::Usage.render().unwrap(),
        "{\"code\":400,\"message\":\"Usage: wei-docker-linux <image_name>\"}"
    );
}

#[test]
fn scenario_connect_failure_ends_the_run_before_any_file() {
    let mut session = PullSession::begin(&arguments(&["wei-docker-linux", "nginx"]), "/root/.wei");
    assert_eq!(session.action(), PullAction::Connect);
    let step = session.step(PullEvent::Failed);
    assert_eq!(step.action, PullAction::Finish(Outcome::ConnectFailed));
    assert!(step.failures.is_empty());
    assert_eq!(
        Outcome::ConnectFailed.render().unwrap(),
        "{\"code\":500,\"message\":\"Failed to connect docker.sock\"}"
    );
    assert_eq!(session.step(PullEvent::Succeeded).action, PullAction::Finish(Outcome::ConnectFailed));
}

#[test]
fn scenario_completion_marker_ends_the_run_with_success() {
    let mut session = reading(&["wei-docker-linux", "x"]);
    let read = "3d\r\n{\"status\":\"Status: Image is up to date for x:latest\"}\r\n5\r\n{\"id\":\"late\"}\r\n";
    let step = session.step(PullEvent::Data(read.to_string()));
    assert_eq!(step.action, PullAction::CreateFile);
    assert_eq!(session.step(PullEvent::Succeeded).action, PullAction::WriteFile);
    assert_eq!(session.step(PullEvent::Succeeded).action, PullAction::Finish(Outcome::Success));
    assert_eq!(Outcome::Success.render().unwrap(), "{\"code\":200,\"message\":\"Success\"}");
}

#[test]
fn scenario_timeout_marker_ends_the_run_with_a_failure() {
    let mut session = reading(&["wei-docker-linux", "x"]);
    let read = "dial tcp: lookup registry-1.docker.io: i/o timeout";
    assert_eq!(session.step(PullEvent::Data(read.to_string())).action, PullAction::CreateFile);
    assert_eq!(session.step(PullEvent::Succeeded).action, PullAction::WriteFile);
    assert_eq!(session.step(PullEvent::Succeeded).action, PullAction::Finish(Outcome::Timeout));
    assert_eq!(Outcome::Timeout.render().unwrap(), "{\"code\":500,\"message\":\"Timeout\"}");
}

#[test]
fn timeout_goes_before_completion() {
    assert_eq!(
        scan_markers("Image is up to date for x:latest ... i/o timeout"),
        Some(Outcome::Timeout)
    );
    assert_eq!(
        scan_markers("i/o timeout ... Downloaded newer image for x:latest"),
        Some(Outcome::Timeout)
    );
}

#[test]
fn scan_markers_finds_each_marker() {
    assert_eq!(scan_markers(""), None);
    assert_eq!(scan_markers("{\"status\":\"Downloading\"}"), None);
    assert_eq!(scan_markers("Image is up to date"), None);
    assert_eq!(scan_markers("I/O TIMEOUT"), None);
    assert_eq!(scan_markers("xi/o timeoutx"), Some(Outcome::Timeout));
    assert_eq!(scan_markers("Status: Image is up to date for x:latest"), Some(Outcome::Success));
    assert_eq!(scan_markers("Status: Downloaded newer image for x:latest"), Some(Outcome::Success));
}

#[test]
fn outcomes_have_codes_and_messages() {
    let all = [
        (Outcome::Success, 200, "Success"),
        (Outcome::Usage, 400, "Usage: wei-docker-linux <image_name>"),
        (Outcome::ConnectFailed, 500, "Failed to connect docker.sock"),
        (Outcome::DirectoryFailed, 500, "Failed to create directory"),
        (Outcome::RequestFailed, 500, "Failed to write request"),
        (Outcome::FileCreateFailed, 500, "Failed to create file"),
        (Outcome::FileWriteFailed, 500, "Failed to write file"),
        (Outcome::Timeout, 500, "Timeout"),
    ];
    for (outcome, code, message) in all {
        assert_eq!(outcome.code(), code);
        assert_eq!(outcome.message(), message);
        assert_eq!(
            outcome.render().unwrap(),
            format!("{{\"code\":{},\"message\":\"{}\"}}", code, message)
        );
        assert_eq!(outcome.to_json().get("message").unwrap().as_str(), Some(message));
    }
}

#[test]
fn begin_sets_up_the_task() {
    let session = PullSession::begin(&arguments(&["wei-docker-linux", "nginx"]), "/root/.wei");
    assert_eq!(session.phase, PullPhase::Connecting);
    assert_eq!(session.reference, "nginx:latest");
    assert_eq!(session.directory, "/root/.wei/docker/");
    assert_eq!(session.snapshot_path, "/root/.wei/docker/nginx%3Alatest.json");
    assert_eq!(
        session.request,
        "POST /v1.43/images/create?fromImage=nginx:latest HTTP/1.1\r\nHost: localhost\r\n\r\n"
    );
    assert_eq!(session.report_url, None);
    assert_eq!(session.verdict, None);
    assert_eq!(session.snapshot, "");
    assert_eq!(session.document.get("nginx"), None);
}

#[test]
fn begin_takes_the_report_target() {
    let list = arguments(&["wei-docker-linux", "redis:7", "http://127.0.0.1:1115/report", "more"]);
    let session = PullSession::begin(&list, "/data");
    assert_eq!(session.reference, "redis:7");
    assert_eq!(session.snapshot_path, "/data/docker/redis%3A7.json");
    assert_eq!(session.report_url, Some("http://127.0.0.1:1115/report".to_string()));
}

#[test]
fn pull_request_names_the_reference() {
    assert_eq!(
        pull_request("a/b:1"),
        "POST /v1.43/images/create?fromImage=a/b:1 HTTP/1.1\r\nHost: localhost\r\n\r\n"
    );
    assert_eq!(daemon_socket(), "/var/run/docker.sock");
}

#[test]
fn reporter_is_started_after_the_connect() {
    let list = arguments(&["wei-docker-linux", "nginx", "http://example.invalid/"]);
    let mut session = PullSession::begin(&list, "/root/.wei");
    assert_eq!(session.step(PullEvent::Succeeded).action, PullAction::StartReporter);
    assert_eq!(session.step(PullEvent::Failed).action, PullAction::CreateDirectory);
    let mut failing = PullSession::begin(&list, "/root/.wei");
    assert_eq!(failing.step(PullEvent::Failed).action, PullAction::Finish(Outcome::ConnectFailed));
}

#[test]
fn every_failure_before_the_first_read_ends_the_run() {
    let list = ["wei-docker-linux", "nginx"];
    let mut session = PullSession::begin(&arguments(&list), "/root/.wei");
    session.step(PullEvent::Succeeded);
    assert_eq!(session.step(PullEvent::Failed).action, PullAction::Finish(Outcome::DirectoryFailed));
    assert_eq!(
        Outcome::DirectoryFailed.render().unwrap(),
        "{\"code\":500,\"message\":\"Failed to create directory\"}"
    );
    let mut session = PullSession::begin(&arguments(&list), "/root/.wei");
    session.step(PullEvent::Succeeded);
    session.step(PullEvent::Succeeded);
    assert_eq!(session.step(PullEvent::Failed).action, PullAction::Finish(Outcome::RequestFailed));
}

#[test]
fn read_error_is_read_again() {
    let mut session = reading(&["wei-docker-linux", "nginx"]);
    for _ in 0..3 {
        let step = session.step(PullEvent::Failed);
        assert_eq!(step.action, PullAction::Read);
        assert_eq!(session.phase, PullPhase::Reading);
    }
}

#[test]
fn closed_transport_ends_the_run_as_success() {
    let mut session = reading(&["wei-docker-linux", "nginx"]);
    assert_eq!(session.step(PullEvent::Closed).action, PullAction::Finish(Outcome::Success));
    assert_eq!(session.step(PullEvent::Data("x".to_string())).action, PullAction::Finish(Outcome::Success));
}

#[test]
fn data_is_merged_and_written_before_the_next_read() {
    let mut session = reading(&["wei-docker-linux", "nginx"]);
    let first = "26\r\n{\"id\":\"L1\",\"status\":\"Downloading\"}\r\n";
    let step = session.step(PullEvent::Data(first.to_string()));
    assert_eq!(step.action, PullAction::CreateFile);
    assert!(step.failures.is_empty());
    assert_eq!(
        session.snapshot,
        "{\n  \"L1\": {\n    \"id\": \"L1\",\n    \"status\": \"Downloading\"\n  }\n}"
    );
    assert_eq!(session.verdict, None);
    assert_eq!(session.step(PullEvent::Succeeded).action, PullAction::WriteFile);
    assert_eq!(session.step(PullEvent::Succeeded).action, PullAction::Read);
    let second = "25\r\n{\"id\":\"L1\",\"status\":\"Extracting\"}\r\nzz\r\n";
    assert_eq!(session.step(PullEvent::Data(second.to_string())).action, PullAction::CreateFile);
    assert_eq!(
        session.snapshot,
        "{\n  \"L1\": {\n    \"id\": \"L1\",\n    \"status\": \"Extracting\"\n  }\n}"
    );
}

#[test]
fn read_without_chunks_still_writes_the_snapshot() {
    let mut session = reading(&["wei-docker-linux", "nginx"]);
    let step = session.step(PullEvent::Data("HTTP/1.1 200 OK\r\n\r\n".to_string()));
    assert_eq!(step.action, PullAction::CreateFile);
    assert_eq!(session.snapshot, "{}");
}

#[test]
fn parse_failures_are_handed_back() {
    let mut session = reading(&["wei-docker-linux", "nginx"]);
    let read = "5\nnot json\n5\n{\"id\":\"L1\"}\n5\n{broken\n";
    let step = session.step(PullEvent::Data(read.to_string()));
    assert_eq!(step.failures.len(), 2);
    assert_eq!(step.action, PullAction::CreateFile);
    assert!(session.document.get("L1").is_some());
}

#[test]
fn failure_notice_names_the_error() {
    let failure = JsonError { message: "expected value at line 1 column 1".to_string() };
    assert_eq!(failure_notice(&failure), "Failed to parse JSON: expected value at line 1 column 1");
    let mut session = reading(&["wei-docker-linux", "nginx"]);
    let step = session.step(PullEvent::Data("1\nnot json\n".to_string()));
    assert_eq!(step.failures.len(), 1);
    assert!(failure_notice(&step.failures[0]).starts_with("Failed to parse JSON: "));
    assert!(failure_notice(&step.failures[0]).len() > "Failed to parse JSON: ".len());
}

#[test]
fn file_failures_end_the_run() {
    let mut session = reading(&["wei-docker-linux", "nginx"]);
    session.step(PullEvent::Data("x".to_string()));
    assert_eq!(session.step(PullEvent::Failed).action, PullAction::Finish(Outcome::FileCreateFailed));
    let mut session = reading(&["wei-docker-linux", "nginx"]);
    session.step(PullEvent::Data("x".to_string()));
    session.step(PullEvent::Succeeded);
    assert_eq!(session.step(PullEvent::Failed).action, PullAction::Finish(Outcome::FileWriteFailed));
    assert_eq!(
        Outcome::FileCreateFailed.render().unwrap(),
        "{\"code\":500,\"message\":\"Failed to create file\"}"
    );
    assert_eq!(
        Outcome::FileWriteFailed.render().unwrap(),
        "{\"code\":500,\"message\":\"Failed to write file\"}"
    );
}

#[test]
fn settle_keeps_a_written_snapshot_and_skips_a_failed_one() {
    let mut session = reading(&["wei-docker-linux", "nginx"]);
    session.settle(Ok("{}".to_string()));
    assert_eq!(session.phase, PullPhase::CreatingFile);
    assert_eq!(session.snapshot, "{}");
    session.verdict = Some(Outcome::Timeout);
    session.settle(Err(JsonError { message: "no".to_string() }));
    assert_eq!(session.phase, PullPhase::Done(Outcome::Timeout));
    assert_eq!(session.snapshot, "{}");
    session.verdict = None;
    session.settle(Err(JsonError { message: "no".to_string() }));
    assert_eq!(session.phase, PullPhase::Reading);
}

#[test]
fn take_data_notes_the_verdict() {
    let mut session = reading(&["wei-docker-linux", "nginx"]);
    let failures = session.take_data("1\n{\"status\":\"Status: Downloaded newer image for nginx:latest\"}\n");
    assert!(failures.is_empty());
    assert_eq!(session.verdict, Some(Outcome::Success));
    assert_eq!(session.phase, PullPhase::CreatingFile);
}

#[test]
fn reporter_reads_delivers_and_waits() {
    let mut reporter = report("http://example.invalid/r".to_string(), "/root/.wei/docker/x.json".to_string());
    assert_eq!(reporter.phase, ReportPhase::Reading);
    assert_eq!(reporter.action(), ReportAction::ReadSnapshot);
    assert_eq!(reporter.step(ReportEvent::Read("{}".to_string())), ReportAction::Deliver);
    let request = reporter.request();
    assert_eq!(request.method, "POST");
    assert_eq!(request.url, "http://example.invalid/r");
    assert_eq!(request.body, "{}");
    assert_eq!(
        request.headers,
        vec![
            ("accept".to_string(), "application/json".to_string()),
            ("Content-Type".to_string(), "application/json".to_string())
        ]
    );
    assert_eq!(reporter.step(ReportEvent::Delivered), ReportAction::Wait);
    assert_eq!(reporter.step(ReportEvent::Woke), ReportAction::ReadSnapshot);
    assert_eq!(REPORT_INTERVAL_SECONDS, 10);
}

#[test]
fn reporter_skips_a_report_without_a_snapshot() {
    let mut reporter = report("u".to_string(), "p".to_string());
    assert_eq!(reporter.step(ReportEvent::Unreadable), ReportAction::Wait);
    assert_eq!(reporter.body, "");
    assert_eq!(reporter.step(ReportEvent::Woke), ReportAction::ReadSnapshot);
    assert_eq!(reporter.step(ReportEvent::Read("a".to_string())), ReportAction::Deliver);
    assert_eq!(reporter.body, "a");
}

#[test]
fn reporter_passes_over_a_failed_delivery() {
    let mut reporter = report("u".to_string(), "p".to_string());
    reporter.step(ReportEvent::Read("a".to_string()));
    assert_eq!(reporter.step(ReportEvent::Undelivered), ReportAction::Wait);
    assert_eq!(reporter.step(ReportEvent::Woke), ReportAction::ReadSnapshot);
    assert_eq!(reporter.url, "u");
    assert_eq!(reporter.file_path, "p");
}

#[test]
fn reporter_never_stops() {
    let mut reporter = report("u".to_string(), "p".to_string());
    let mut reads = 0;
    for round in 0..30 {
        let event = match (reporter.phase, round % 2) {
            (ReportPhase::Reading, 0) => ReportEvent::Read(format!("{}", round)),
            (ReportPhase::Reading, _) => ReportEvent::Unreadable,
            (ReportPhase::Delivering, 0) => ReportEvent::Delivered,
            (ReportPhase::Delivering, _) => ReportEvent::Undelivered,
            (ReportPhase::Waiting, _) => ReportEvent::Woke,
        };
        if reporter.step(event) == ReportAction::ReadSnapshot {
            reads += 1;
        }
    }
    assert!(reads >= 10);
}
