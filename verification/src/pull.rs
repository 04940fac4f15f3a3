//! The pull, as a machine that decides and leaves the doing to its caller.
//!
//! The caller performs the action that the session names, tells the session
//! how it went, and is told the next action. All that the run must decide is
//! decided here: what follows a failure, what a read does to the progress
//! document, and when the pull is over.

use crate::chunked::{chunk_payloads, parse_chunked_response};
use crate::codec::{
    compact_json, is_parse_of, is_writing_of, json_compact, json_number, json_parse, json_pretty,
    number_of, JsonError,
};
use crate::json::{lemma_members_model_step, Json, JsonModel};
use crate::progress::{
    apply_updates, errors_of, merged_all, ok_updates, ProgressDocument,
};
use crate::snapshot::{
    normalize_reference, normalized_reference, snapshot_directory, snapshot_directory_of,
    snapshot_of, snapshot_path, snapshot_path_of, snapshot_text,
};
use crate::text::{chars_of, contains_chars, contains_text};
use vstd::prelude::*;
use vstd::string::*;

verus! {

/// How a run ends.
#[derive(Clone, Copy, Debug, PartialEq, Eq, Structural)]
pub enum Outcome {
    /// The image was pulled, or the daemon closed the transport.
    Success,
    /// No image was named.
    Usage,
    /// The transport to the daemon could not be opened.
    ConnectFailed,
    /// The directory for the snapshot could not be created.
    DirectoryFailed,
    /// The request could not be written to the transport.
    RequestFailed,
    /// The snapshot file could not be created.
    FileCreateFailed,
    /// The snapshot file could not be written.
    FileWriteFailed,
    /// The daemon reported a timeout.
    Timeout,
}

/// The code that stands for an outcome: 200 for success, 400 for a wrong
/// invocation, 500 for every failure of the pull.
pub open spec fn outcome_code(outcome: Outcome) -> u64 {
    match outcome {
        Outcome::Success => 200,
        Outcome::Usage => 400,
        _ => 500,
    }
}

/// The message that goes with an outcome.
pub open spec fn outcome_message(outcome: Outcome) -> Seq<char> {
    match outcome {
        Outcome::Success => "Success"@,
        Outcome::Usage => "Usage: wei-docker-linux <image_name>"@,
        Outcome::ConnectFailed => "Failed to connect docker.sock"@,
        Outcome::DirectoryFailed => "Failed to create directory"@,
        Outcome::RequestFailed => "Failed to write request"@,
        Outcome::FileCreateFailed => "Failed to create file"@,
        Outcome::FileWriteFailed => "Failed to write file"@,
        Outcome::Timeout => "Timeout"@,
    }
}

/// The status object of an outcome: its code and its message.
pub open spec fn status_json(outcome: Outcome) -> JsonModel {
    JsonModel::Object(
        Map::empty().insert("code"@, JsonModel::Number(number_of(outcome_code(outcome)))).insert(
            "message"@,
            JsonModel::String(outcome_message(outcome)),
        ),
    )
}

impl Outcome {
    /// The code that stands for the outcome.
    pub fn code(self) -> (code: u64)
        ensures
            code == outcome_code(self),
    {
        match self {
            Outcome::Success => 200,
            Outcome::Usage => 400,
            _ => 500,
        }
    }

    /// The message that goes with the outcome.
    pub fn message(self) -> (message: &'static str)
        ensures
            message@ == outcome_message(self),
    {
        match self {
            Outcome::Success => "Success",
            Outcome::Usage => "Usage: wei-docker-linux <image_name>",
            Outcome::ConnectFailed => "Failed to connect docker.sock",
            Outcome::DirectoryFailed => "Failed to create directory",
            Outcome::RequestFailed => "Failed to write request",
            Outcome::FileCreateFailed => "Failed to create file",
            Outcome::FileWriteFailed => "Failed to write file",
            Outcome::Timeout => "Timeout",
        }
    }

    /// The status object of the outcome.
    pub fn to_json(self) -> (json: Json)
        ensures
            json@ == status_json(self),
    {
        let mut members: Vec<(String, Json)> = Vec::new();
        members.push((String::from_str("code"), json_number(self.code())));
        members.push((String::from_str("message"), Json::String(String::from_str(self.message()))));
        proof {
            lemma_members_model_step(members@, 0);
            lemma_members_model_step(members@, 1);
            lemma_members_model_step(members@, 2);
        }
        Json::Object(members)
    }

    /// The status object of the outcome as JSON text on one line, as the
    /// process prints it when it ends; an error exactly where that text
    /// cannot be written.
    pub fn render(self) -> (written: Result<String, JsonError>)
        ensures
            is_writing_of(json_compact(status_json(self)), written),
    {
        let json = self.to_json();
        compact_json(&json)
    }
}

/// What a read decides about the run: a text that holds the daemon's timeout
/// marker ends it as a timeout; otherwise a text that holds one of the two
/// completion markers ends it as a success; any other text ends nothing.
pub open spec fn verdict_of(text: Seq<char>) -> Option<Outcome> {
    if contains_text(text, "i/o timeout"@) {
        Some(Outcome::Timeout)
    } else if contains_text(text, "Image is up to date for"@) || contains_text(
        text,
        "Downloaded newer image for"@,
    ) {
        Some(Outcome::Success)
    } else {
        None
    }
}

/// Looks for the daemon's terminal markers in the text of one read.
pub fn scan_markers(text: &str) -> (verdict: Option<Outcome>)
    ensures
        verdict == verdict_of(text@),
{
    let chars = chars_of(text);
    let timeout = chars_of("i/o timeout");
    let up_to_date = chars_of("Image is up to date for");
    let downloaded = chars_of("Downloaded newer image for");
    if contains_chars(&chars, &timeout) {
        Some(Outcome::Timeout)
    } else if contains_chars(&chars, &up_to_date) || contains_chars(&chars, &downloaded) {
        Some(Outcome::Success)
    } else {
        None
    }
}

/// The request that starts the pull of an image.
pub open spec fn pull_request_of(reference: Seq<char>) -> Seq<char> {
    "POST /v1.43/images/create?fromImage="@ + reference
        + " HTTP/1.1\r\nHost: localhost\r\n\r\n"@
}

/// The request that starts the pull of an image: one request line and a
/// `Host` header, no body.
pub fn pull_request(reference: &str) -> (request: String)
    ensures
        request@ == pull_request_of(reference@),
{
    let mut request = String::from_str("POST /v1.43/images/create?fromImage=");
    request.append(reference);
    request.append(" HTTP/1.1\r\nHost: localhost\r\n\r\n");
    request
}

/// The line that tells of a payload that could not be parsed.
pub open spec fn failure_notice_of(message: Seq<char>) -> Seq<char> {
    "Failed to parse JSON: "@ + message
}

/// The line that tells of a payload that could not be parsed.
pub fn failure_notice(failure: &JsonError) -> (line: String)
    ensures
        line@ == failure_notice_of(failure.message@),
{
    let mut line = String::from_str("Failed to parse JSON: ");
    line.append(failure.message.as_str());
    line
}

/// Where the daemon listens.
pub fn daemon_socket() -> (path: &'static str)
    ensures
        path@ == "/var/run/docker.sock"@,
{
    "/var/run/docker.sock"
}

/// Where a run stands: each phase but the last waits for the outcome of one
/// action.
#[derive(Clone, Copy, Debug, PartialEq, Eq, Structural)]
pub enum PullPhase {
    /// The transport is being opened.
    Connecting,
    /// The reporter is being started.
    StartingReporter,
    /// The directory for the snapshot is being created.
    CreatingDirectory,
    /// The request is being written.
    Requesting,
    /// A read is under way.
    Reading,
    /// The snapshot file is being created.
    CreatingFile,
    /// The snapshot is being written to its file.
    WritingFile,
    /// The run is over.
    Done(Outcome),
}

/// What the caller is to do next.
#[derive(Clone, Copy, Debug, PartialEq, Eq, Structural)]
pub enum PullAction {
    /// Open the transport to the daemon.
    Connect,
    /// Start the reporter for the session's report target and snapshot file.
    StartReporter,
    /// Create the session's snapshot directory, with what lies above it.
    CreateDirectory,
    /// Write the session's request to the transport.
    SendRequest,
    /// Read from the transport.
    Read,
    /// Create the session's snapshot file, emptying it where it exists.
    CreateFile,
    /// Write the session's snapshot to the file just created.
    WriteFile,
    /// Report the outcome and end.
    Finish(Outcome),
}

/// How the last action went.
#[derive(Debug, PartialEq, Eq)]
pub enum PullEvent {
    /// It succeeded.
    Succeeded,
    /// It failed.
    Failed,
    /// A read brought this text.
    Data(String),
    /// A read brought nothing: the daemon closed the transport.
    Closed,
}

/// The action that a phase waits on.
pub open spec fn action_in(phase: PullPhase) -> PullAction {
    match phase {
        PullPhase::Connecting => PullAction::Connect,
        PullPhase::StartingReporter => PullAction::StartReporter,
        PullPhase::CreatingDirectory => PullAction::CreateDirectory,
        PullPhase::Requesting => PullAction::SendRequest,
        PullPhase::Reading => PullAction::Read,
        PullPhase::CreatingFile => PullAction::CreateFile,
        PullPhase::WritingFile => PullAction::WriteFile,
        PullPhase::Done(outcome) => PullAction::Finish(outcome),
    }
}

/// The phase after a read has been dealt with: the run ends where the read
/// decided so, and reads on where it did not.
pub open spec fn phase_after_read(verdict: Option<Outcome>) -> PullPhase {
    match verdict {
        Some(outcome) => PullPhase::Done(outcome),
        None => PullPhase::Reading,
    }
}

/// The phase that follows `phase` on an event other than a read that
/// brought text.
///
/// Up to the first read every failure ends the run, and anything but a
/// success counts as a failure. A failed read is read again at once; a read
/// that brought nothing ends the run as a success. While the snapshot is
/// written a failure ends the run; once it is written, the verdict of the
/// read that led to it decides. A run that is over stays over.
pub open spec fn phase_after(
    phase: PullPhase,
    event: PullEvent,
    reporting: bool,
    verdict: Option<Outcome>,
) -> PullPhase {
    match phase {
        PullPhase::Connecting => if event is Succeeded {
            if reporting {
                PullPhase::StartingReporter
            } else {
                PullPhase::CreatingDirectory
            }
        } else {
            PullPhase::Done(Outcome::ConnectFailed)
        },
        PullPhase::StartingReporter => PullPhase::CreatingDirectory,
        PullPhase::CreatingDirectory => if event is Succeeded {
            PullPhase::Requesting
        } else {
            PullPhase::Done(Outcome::DirectoryFailed)
        },
        PullPhase::Requesting => if event is Succeeded {
            PullPhase::Reading
        } else {
            PullPhase::Done(Outcome::RequestFailed)
        },
        PullPhase::Reading => if event is Closed {
            PullPhase::Done(Outcome::Success)
        } else {
            PullPhase::Reading
        },
        PullPhase::CreatingFile => if event is Succeeded {
            PullPhase::WritingFile
        } else {
            PullPhase::Done(Outcome::FileCreateFailed)
        },
        PullPhase::WritingFile => if event is Succeeded {
            phase_after_read(verdict)
        } else {
            PullPhase::Done(Outcome::FileWriteFailed)
        },
        PullPhase::Done(outcome) => PullPhase::Done(outcome),
    }
}

/// A run that is over stays over, whatever happens next, and names no action
/// but to report its outcome.
pub proof fn lemma_over_stays_over(
    outcome: Outcome,
    event: PullEvent,
    reporting: bool,
    verdict: Option<Outcome>,
)
    ensures
        phase_after(PullPhase::Done(outcome), event, reporting, verdict) == PullPhase::Done(
            outcome,
        ),
        action_in(PullPhase::Done(outcome)) == PullAction::Finish(outcome),
{
}

/// Success is not reported unearned: a run becomes a success only when a
/// read brought nothing, or when the snapshot has been written after a read
/// whose verdict was success.
pub proof fn lemma_success_is_earned(
    phase: PullPhase,
    event: PullEvent,
    reporting: bool,
    verdict: Option<Outcome>,
)
    requires
        phase != PullPhase::Done(Outcome::Success),
        phase_after(phase, event, reporting, verdict) == PullPhase::Done(Outcome::Success),
    ensures
        (phase == PullPhase::Reading && event is Closed) || (phase == PullPhase::WritingFile
            && event is Succeeded && verdict == Some(Outcome::Success)),
{
}

/// No file is touched before the transport is open: from the start of a run
/// nothing but a successful connect leads on, and a failed one ends the run
/// with that failure.
pub proof fn lemma_connect_failure_ends_run(event: PullEvent, reporting: bool)
    requires
        !(event is Succeeded),
    ensures
        phase_after(PullPhase::Connecting, event, reporting, None) == PullPhase::Done(
            Outcome::ConnectFailed,
        ),
{
}

/// The values that the payloads of a read write, in order, without the
/// payloads that are not JSON.
pub open spec fn parsed_updates(payloads: Seq<Seq<char>>) -> Seq<JsonModel>
    decreases payloads.len(),
{
    if payloads.len() == 0 {
        Seq::empty()
    } else {
        match json_parse(payloads.last()) {
            Some(value) => parsed_updates(payloads.drop_last()).push(value),
            None => parsed_updates(payloads.drop_last()),
        }
    }
}

/// How many of the payloads of a read are not JSON.
pub open spec fn unreadable(payloads: Seq<Seq<char>>) -> nat
    decreases payloads.len(),
{
    if payloads.len() == 0 {
        0
    } else if json_parse(payloads.last()) is None {
        unreadable(payloads.drop_last()) + 1
    } else {
        unreadable(payloads.drop_last())
    }
}

/// Parse results speak of their payloads: the values among them are the
/// values that the payloads write, the errors are as many as the payloads
/// that write none.
pub proof fn lemma_results_of_payloads(
    payloads: Seq<Seq<char>>,
    results: Seq<Result<Json, JsonError>>,
)
    requires
        results.len() == payloads.len(),
        forall|i: int| 0 <= i < results.len() ==> is_parse_of(payloads[i], #[trigger] results[i]),
    ensures
        ok_updates(results) == parsed_updates(payloads),
        errors_of(results).len() == unreadable(payloads),
    decreases payloads.len(),
{
    if payloads.len() > 0 {
        lemma_results_of_payloads(payloads.drop_last(), results.drop_last());
    }
}

/// One pull: what it was asked for, where it stands, and what it has
/// learned.
#[derive(Debug)]
pub struct PullSession {
    /// The image reference, with its tag.
    pub reference: String,
    /// The directory of the snapshot file.
    pub directory: String,
    /// The snapshot file.
    pub snapshot_path: String,
    /// The request that starts the pull.
    pub request: String,
    /// Where the reporter is to push the snapshot, if anywhere.
    pub report_url: Option<String>,
    /// Where the run stands.
    pub phase: PullPhase,
    /// The progress seen so far.
    pub document: ProgressDocument,
    /// The snapshot that is being written, or was written last.
    pub snapshot: String,
    /// What the last read decided about the run.
    pub verdict: Option<Outcome>,
}

/// What a step hands back: the next action, and the payloads of the read
/// that could not be parsed, each with its error.
#[derive(Debug)]
pub struct PullStep {
    pub action: PullAction,
    pub failures: Vec<JsonError>,
}

/// Whether two sessions were asked for the same.
pub open spec fn same_task(first: PullSession, second: PullSession) -> bool {
    &&& first.reference == second.reference
    &&& first.directory == second.directory
    &&& first.snapshot_path == second.snapshot_path
    &&& first.request == second.request
    &&& first.report_url == second.report_url
}

impl PullSession {
    /// Starts a run from the arguments of the process: its own name, the
    /// image, and, if given, the address to report to. The snapshot is kept
    /// under `base`. Without an image the run is over before it began.
    pub fn begin(arguments: &Vec<String>, base: &str) -> (session: PullSession)
        ensures
            session.document@ == Map::<Seq<char>, JsonModel>::empty(),
            session.document.wf(),
            session.snapshot@ == Seq::<char>::empty(),
            session.verdict is None,
            arguments@.len() < 2 ==> {
                &&& session.phase == PullPhase::Done(Outcome::Usage)
                &&& session.reference@ == Seq::<char>::empty()
                &&& session.directory@ == Seq::<char>::empty()
                &&& session.snapshot_path@ == Seq::<char>::empty()
                &&& session.request@ == Seq::<char>::empty()
                &&& session.report_url is None
            },
            arguments@.len() >= 2 ==> {
                &&& session.phase == PullPhase::Connecting
                &&& session.reference@ == normalized_reference(arguments@[1]@)
                &&& session.directory@ == snapshot_directory_of(base@)
                &&& session.snapshot_path@ == snapshot_path_of(base@, session.reference@)
                &&& session.request@ == pull_request_of(session.reference@)
                &&& arguments@.len() == 2 ==> session.report_url is None
                &&& arguments@.len() > 2 ==> session.report_url == Some(arguments@[2])
            },
    {
        if arguments.len() < 2 {
            return PullSession {
                reference: String::new(),
                directory: String::new(),
                snapshot_path: String::new(),
                request: String::new(),
                report_url: None,
                phase: PullPhase::Done(Outcome::Usage),
                document: ProgressDocument::new(),
                snapshot: String::new(),
                verdict: None,
            };
        }
        let reference = normalize_reference(arguments[1].as_str());
        let directory = snapshot_directory(base);
        let path = snapshot_path(base, reference.as_str());
        let request = pull_request(reference.as_str());
        let report_url = if arguments.len() > 2 {
            Some(arguments[2].clone())
        } else {
            None
        };
        PullSession {
            reference,
            directory,
            snapshot_path: path,
            request,
            report_url,
            phase: PullPhase::Connecting,
            document: ProgressDocument::new(),
            snapshot: String::new(),
            verdict: None,
        }
    }

    /// The action that the session waits on.
    pub fn action(&self) -> (action: PullAction)
        ensures
            action == action_in(self.phase),
    {
        match self.phase {
            PullPhase::Connecting => PullAction::Connect,
            PullPhase::StartingReporter => PullAction::StartReporter,
            PullPhase::CreatingDirectory => PullAction::CreateDirectory,
            PullPhase::Requesting => PullAction::SendRequest,
            PullPhase::Reading => PullAction::Read,
            PullPhase::CreatingFile => PullAction::CreateFile,
            PullPhase::WritingFile => PullAction::WriteFile,
            PullPhase::Done(outcome) => PullAction::Finish(outcome),
        }
    }

    /// Takes note of the outcome of writing the document out after a read:
    /// a snapshot that was written is kept and its file is created next; one
    /// that could not be written is skipped, and the verdict of the read
    /// decides at once.
    pub fn settle(&mut self, written: Result<String, JsonError>)
        ensures
            same_task(*old(self), *final(self)),
            final(self).document == old(self).document,
            final(self).verdict == old(self).verdict,
            match written {
                Ok(text) => final(self).phase == PullPhase::CreatingFile && final(self).snapshot
                    == text,
                Err(_) => final(self).phase == phase_after_read(old(self).verdict)
                    && final(self).snapshot == old(self).snapshot,
            },
    {
        match written {
            Ok(text) => {
                self.snapshot = text;
                self.phase = PullPhase::CreatingFile;
            },
            Err(_) => {
                self.phase = match self.verdict {
                    Some(outcome) => PullPhase::Done(outcome),
                    None => PullPhase::Reading,
                };
            },
        }
    }

    /// Takes the text of one read: decodes its chunks, merges each progress
    /// object into the document, notes what the text decides about the run,
    /// and writes the document out. Hands back the parse errors.
    pub fn take_data(&mut self, text: &str) -> (failures: Vec<JsonError>)
        ensures
            same_task(*old(self), *final(self)),
            final(self).document@ == merged_all(
                old(self).document@,
                parsed_updates(chunk_payloads(text@)),
            ),
            old(self).document.wf() ==> final(self).document.wf(),
            final(self).verdict == verdict_of(text@),
            failures@.len() == unreadable(chunk_payloads(text@)),
            match json_pretty(final(self).document.json()) {
                Some(snapshot) => final(self).phase == PullPhase::CreatingFile
                    && final(self).snapshot@ == snapshot,
                None => final(self).phase == phase_after_read(verdict_of(text@))
                    && final(self).snapshot == old(self).snapshot,
            },
            old(self).document.wf() ==> json_pretty(final(self).document.json()) == snapshot_of(
                final(self).document@,
            ),
    {
        let results = parse_chunked_response(text);
        proof {
            lemma_results_of_payloads(chunk_payloads(text@), results@);
        }
        let failures = apply_updates(&mut self.document, results);
        self.verdict = scan_markers(text);
        let written = snapshot_text(&self.document);
        proof {
            if self.document.wf() {
                self.document.lemma_wf();
            }
        }
        self.settle(written);
        failures
    }

    /// Takes the outcome of the last action and names the next one.
    pub fn step(&mut self, event: PullEvent) -> (step: PullStep)
        ensures
            same_task(*old(self), *final(self)),
            step.action == action_in(final(self).phase),
            old(self).document.wf() ==> final(self).document.wf(),
            match event {
                PullEvent::Data(text) if old(self).phase == PullPhase::Reading => {
                    &&& final(self).document@ == merged_all(
                        old(self).document@,
                        parsed_updates(chunk_payloads(text@)),
                    )
                    &&& final(self).verdict == verdict_of(text@)
                    &&& step.failures@.len() == unreadable(chunk_payloads(text@))
                    &&& match json_pretty(final(self).document.json()) {
                        Some(snapshot) => final(self).phase == PullPhase::CreatingFile
                            && final(self).snapshot@ == snapshot,
                        None => final(self).phase == phase_after_read(verdict_of(text@))
                            && final(self).snapshot == old(self).snapshot,
                    }
                },
                _ => {
                    &&& final(self).phase == phase_after(
                        old(self).phase,
                        event,
                        old(self).report_url is Some,
                        old(self).verdict,
                    )
                    &&& final(self).document == old(self).document
                    &&& final(self).snapshot == old(self).snapshot
                    &&& final(self).verdict == old(self).verdict
                    &&& step.failures@.len() == 0
                },
            },
    {
        let mut failures: Vec<JsonError> = Vec::new();
        match self.phase {
            PullPhase::Connecting => {
                self.phase = match event {
                    PullEvent::Succeeded => if self.report_url.is_some() {
                        PullPhase::StartingReporter
                    } else {
                        PullPhase::CreatingDirectory
                    },
                    _ => PullPhase::Done(Outcome::ConnectFailed),
                };
            },
            PullPhase::StartingReporter => {
                self.phase = PullPhase::CreatingDirectory;
            },
            PullPhase::CreatingDirectory => {
                self.phase = match event {
                    PullEvent::Succeeded => PullPhase::Requesting,
                    _ => PullPhase::Done(Outcome::DirectoryFailed),
                };
            },
            PullPhase::Requesting => {
                self.phase = match event {
                    PullEvent::Succeeded => PullPhase::Reading,
                    _ => PullPhase::Done(Outcome::RequestFailed),
                };
            },
            PullPhase::Reading => {
                match event {
                    PullEvent::Data(text) => {
                        failures = self.take_data(text.as_str());
                    },
                    PullEvent::Closed => {
                        self.phase = PullPhase::Done(Outcome::Success);
                    },
                    _ => {},
                }
            },
            PullPhase::CreatingFile => {
                self.phase = match event {
                    PullEvent::Succeeded => PullPhase::WritingFile,
                    _ => PullPhase::Done(Outcome::FileCreateFailed),
                };
            },
            PullPhase::WritingFile => {
                self.phase = match event {
                    PullEvent::Succeeded => match self.verdict {
                        Some(outcome) => PullPhase::Done(outcome),
                        None => PullPhase::Reading,
                    },
                    _ => PullPhase::Done(Outcome::FileWriteFailed),
                };
            },
            PullPhase::Done(_) => {},
        }
        PullStep { action: self.action(), failures }
    }
}

} // verus!
