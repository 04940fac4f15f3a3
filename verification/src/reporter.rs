//! The reporter: on a fixed cadence it reads the snapshot file and pushes
//! what it read to the report target. It shares nothing with the pull but
//! the file, and it never ends of itself.
//!
//! Like the pull it only decides: the caller reads, sends and sleeps.

use vstd::prelude::*;
use vstd::string::*;

verus! {

/// The seconds between one report and the next.
pub const REPORT_INTERVAL_SECONDS: u64 = 10;

/// What the reporter waits on.
#[derive(Clone, Copy, Debug, PartialEq, Eq, Structural)]
pub enum ReportPhase {
    /// The snapshot file is being read.
    Reading,
    /// The snapshot is being pushed to the report target.
    Delivering,
    /// The interval to the next report is running.
    Waiting,
}

/// What the caller is to do next.
#[derive(Clone, Copy, Debug, PartialEq, Eq, Structural)]
pub enum ReportAction {
    /// Read the snapshot file as text.
    ReadSnapshot,
    /// Send the reporter's request.
    Deliver,
    /// Sleep for the report interval.
    Wait,
}

/// How the last action went.
#[derive(Debug, PartialEq, Eq)]
pub enum ReportEvent {
    /// The snapshot file holds this text.
    Read(String),
    /// The snapshot file is not there or cannot be read.
    Unreadable,
    /// The request was sent and answered.
    Delivered,
    /// The request could not be delivered.
    Undelivered,
    /// The interval is over.
    Woke,
}

/// The action that a phase waits on.
pub open spec fn report_action_in(phase: ReportPhase) -> ReportAction {
    match phase {
        ReportPhase::Reading => ReportAction::ReadSnapshot,
        ReportPhase::Delivering => ReportAction::Deliver,
        ReportPhase::Waiting => ReportAction::Wait,
    }
}

/// The phase that follows `phase` on `event`.
///
/// A snapshot that was read is delivered; without one the report is skipped
/// and the reporter waits for the next. After a delivery the reporter waits,
/// whether the delivery succeeded or not. After the wait it reads again.
pub open spec fn report_phase_after(phase: ReportPhase, event: ReportEvent) -> ReportPhase {
    match phase {
        ReportPhase::Reading => if event is Read {
            ReportPhase::Delivering
        } else {
            ReportPhase::Waiting
        },
        ReportPhase::Delivering => ReportPhase::Waiting,
        ReportPhase::Waiting => ReportPhase::Reading,
    }
}

/// The snapshot that the reporter holds after `event`: the text just read,
/// or else the one it held.
pub open spec fn report_body_after(phase: ReportPhase, event: ReportEvent, body: String) -> String {
    match event {
        ReportEvent::Read(text) if phase == ReportPhase::Reading => text,
        _ => body,
    }
}

/// A request to the report target.
#[derive(Debug, PartialEq, Eq)]
pub struct ReportRequest {
    /// The HTTP method.
    pub method: String,
    /// The address that the request goes to.
    pub url: String,
    /// The headers, as names and values.
    pub headers: Vec<(String, String)>,
    /// The body.
    pub body: String,
}

/// The headers of every report, as names and values: the body is JSON, and
/// JSON is accepted in answer.
pub open spec fn report_headers() -> Seq<(Seq<char>, Seq<char>)> {
    seq![("accept"@, "application/json"@), ("Content-Type"@, "application/json"@)]
}

/// The names and values of a list of headers.
pub open spec fn headers_view(headers: Seq<(String, String)>) -> Seq<(Seq<char>, Seq<char>)> {
    Seq::new(headers.len(), |i: int| (headers[i].0@, headers[i].1@))
}

/// A reporter: where it reads, where it pushes, and where it stands.
#[derive(Debug)]
pub struct Reporter {
    /// The report target.
    pub url: String,
    /// The snapshot file.
    pub file_path: String,
    /// What the reporter waits on.
    pub phase: ReportPhase,
    /// The snapshot read last.
    pub body: String,
}

/// Sets up the reporter for a report target and a snapshot file. It starts
/// by reading.
pub fn report(url: String, file_path: String) -> (reporter: Reporter)
    ensures
        reporter.url == url,
        reporter.file_path == file_path,
        reporter.phase == ReportPhase::Reading,
        reporter.body@ == Seq::<char>::empty(),
{
    Reporter { url, file_path, phase: ReportPhase::Reading, body: String::new() }
}

impl Reporter {
    /// The action that the reporter waits on.
    pub fn action(&self) -> (action: ReportAction)
        ensures
            action == report_action_in(self.phase),
    {
        match self.phase {
            ReportPhase::Reading => ReportAction::ReadSnapshot,
            ReportPhase::Delivering => ReportAction::Deliver,
            ReportPhase::Waiting => ReportAction::Wait,
        }
    }

    /// Takes the outcome of the last action and names the next one.
    pub fn step(&mut self, event: ReportEvent) -> (action: ReportAction)
        ensures
            final(self).url == old(self).url,
            final(self).file_path == old(self).file_path,
            final(self).phase == report_phase_after(old(self).phase, event),
            final(self).body == report_body_after(old(self).phase, event, old(self).body),
            action == report_action_in(final(self).phase),
    {
        match self.phase {
            ReportPhase::Reading => {
                match event {
                    ReportEvent::Read(text) => {
                        self.body = text;
                        self.phase = ReportPhase::Delivering;
                    },
                    _ => {
                        self.phase = ReportPhase::Waiting;
                    },
                }
            },
            ReportPhase::Delivering => {
                self.phase = ReportPhase::Waiting;
            },
            ReportPhase::Waiting => {
                self.phase = ReportPhase::Reading;
            },
        }
        self.action()
    }

    /// The request that delivers the snapshot read last: a POST to the
    /// report target with the snapshot as its body.
    pub fn request(&self) -> (request: ReportRequest)
        ensures
            request.method@ == "POST"@,
            request.url@ == self.url@,
            request.body@ == self.body@,
            headers_view(request.headers@) == report_headers(),
    {
        let mut headers: Vec<(String, String)> = Vec::new();
        headers.push((String::from_str("accept"), String::from_str("application/json")));
        headers.push((String::from_str("Content-Type"), String::from_str("application/json")));
        ReportRequest {
            method: String::from_str("POST"),
            url: self.url.clone(),
            headers,
            body: self.body.clone(),
        }
    }
}

/// The reporter never comes to rest: whatever happens, it is reading again
/// after at most three steps, and every step names an action.
pub proof fn lemma_reporter_returns(
    phase: ReportPhase,
    first: ReportEvent,
    second: ReportEvent,
    third: ReportEvent,
)
    ensures
        ({
            let one = report_phase_after(phase, first);
            let two = report_phase_after(one, second);
            let three = report_phase_after(two, third);
            one == ReportPhase::Reading || two == ReportPhase::Reading || three
                == ReportPhase::Reading
        }),
{
}

/// A delivery that fails is passed over: the reporter waits for the next
/// report just as after one that succeeded.
pub proof fn lemma_delivery_failure_ignored(event: ReportEvent)
    ensures
        report_phase_after(ReportPhase::Delivering, event) == ReportPhase::Waiting,
        report_phase_after(ReportPhase::Delivering, event) == report_phase_after(
            ReportPhase::Delivering,
            ReportEvent::Delivered,
        ),
{
}

} // verus!
