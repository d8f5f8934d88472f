//! Sessions of the socket server: the settings under which it listens, and
//! what a session does with each message it reads. The session itself reads
//! and writes frames, searches the catalog and reads artifact files; each
//! function here decides one step and says what to do next.

use crate::artifact::{base_name, file_name};
use crate::engine::laws::lemma_evolution_reflexive;
use crate::engine::{EngineView, JobEngine, SubmitError};
use crate::job::{JobView, SearchResult, SearchResultView};
use crate::server::wire::{
    array_of, decode_request, decoded, encode_response, envelope, failure_reasons, project,
    projections, result_views, search_content, search_payload, status_json, status_payload,
    ProtocolError, Request, RequestAction, RequestView, ResponseAction, StatusView,
};
use crate::text::{decimal, push_decimal, texts};
use vstd::prelude::*;

verus! {

/// Where the socket server listens, and whether it runs at all.
#[derive(Debug, PartialEq, Eq)]
pub struct WebsocketConfig {
    pub enabled: bool,
    pub ip: String,
    pub port: u16,
}

impl WebsocketConfig {
    /// The settings of a fresh installation: the server is off, and would
    /// listen on the loopback address, port 8080.
    pub fn new() -> (r: WebsocketConfig)
        ensures
            !r.enabled,
            r.ip@ == "127.0.0.1"@,
            r.port == 8080,
    {
        WebsocketConfig { enabled: false, ip: String::from_str("127.0.0.1"), port: 8080 }
    }

    /// The address to bind: the host, a colon, the port.
    pub fn listen_address(&self) -> (r: String)
        ensures
            r@ == self.ip@ + ":"@ + decimal(self.port as nat),
    {
        let mut out = self.ip.clone();
        out.append(":");
        push_decimal(&mut out, self.port as u64);
        out
    }
}

/// What reading from the connection gave.
#[derive(Debug, PartialEq, Eq)]
pub enum Incoming {
    /// A text frame.
    Text(String),
    /// A frame of any other kind.
    Other,
    /// The read failed: the client is gone.
    Closed,
}

/// Mathematical model of an [`Incoming`].
pub enum IncomingView {
    Text(Seq<char>),
    Other,
    Closed,
}

impl View for Incoming {
    type V = IncomingView;

    open spec fn view(&self) -> IncomingView {
        match self {
            Incoming::Text(text) => IncomingView::Text(text@),
            Incoming::Other => IncomingView::Other,
            Incoming::Closed => IncomingView::Closed,
        }
    }
}

/// What the session does next.
#[derive(Debug, PartialEq, Eq)]
pub enum Step {
    /// End the session.
    Close,
    /// Read the next message.
    Continue,
    /// Send one text frame, then read the next message.
    Send { text: String },
    /// Send one text frame and right after it one binary frame, then read
    /// the next message.
    SendFile { text: String, payload: Vec<u8> },
    /// Search the catalog, and go on with [`search_reply`].
    Search { query: String },
    /// Look the track up in the catalog, and go on with [`add_reply`].
    Resolve { track_id: String },
    /// Read the artifact at `path` into memory and delete the file, and go
    /// on with [`artifact_reply`].
    Fetch { path: String, file_name: String },
}

/// Mathematical model of a [`Step`].
pub enum StepView {
    Close,
    Continue,
    Send { text: Seq<char> },
    SendFile { text: Seq<char>, payload: Seq<u8> },
    Search { query: Seq<char> },
    Resolve { track_id: Seq<char> },
    Fetch { path: Seq<char>, file_name: Seq<char> },
}

impl View for Step {
    type V = StepView;

    open spec fn view(&self) -> StepView {
        match self {
            Step::Close => StepView::Close,
            Step::Continue => StepView::Continue,
            Step::Send { text } => StepView::Send { text: text@ },
            Step::SendFile { text, payload } => StepView::SendFile {
                text: text@,
                payload: payload@,
            },
            Step::Search { query } => StepView::Search { query: query@ },
            Step::Resolve { track_id } => StepView::Resolve { track_id: track_id@ },
            Step::Fetch { path, file_name } => StepView::Fetch {
                path: path@,
                file_name: file_name@,
            },
        }
    }
}

/// One decision of a session: what to do next, and what to write to the
/// server's log.
#[derive(Debug, PartialEq, Eq)]
pub struct Turn {
    pub step: Step,
    pub log: Vec<String>,
}

/// Mathematical model of a [`Turn`].
pub struct TurnView {
    pub step: StepView,
    pub log: Seq<Seq<char>>,
}

impl View for Turn {
    type V = TurnView;

    open spec fn view(&self) -> TurnView {
        TurnView { step: self.step@, log: texts(self.log@) }
    }
}

/// What a client is told when no artifact can be handed out.
pub open spec fn not_available() -> Seq<char> {
    "Requested file not available"@
}

/// What a client is told about a text frame that is no request.
pub open spec fn complaint(error: ProtocolError) -> Seq<char> {
    match error {
        ProtocolError::Malformed => "Malformed request"@,
        ProtocolError::MissingAction => "Request without action"@,
        ProtocolError::UnknownAction => "Unknown action"@,
        ProtocolError::MissingContent => "Request without content"@,
    }
}

/// The log line for a frame that is not text.
pub open spec fn not_text() -> Seq<char> {
    "Client sent non-text message"@
}

/// What a client is told when a track cannot be queued for want of serial
/// numbers.
pub open spec fn no_room() -> Seq<char> {
    "No further job can be accepted"@
}

/// The content of the `Status` response for these jobs.
pub open spec fn status_content(jobs: Seq<JobView>) -> Seq<char> {
    array_of(projections(jobs).map_values(|s: StatusView| status_json(s)))
}

/// The turn that answers a request.
pub open spec fn turn_for_request(e: EngineView, request: RequestView, separator: char) -> TurnView {
    match request.action {
        RequestAction::Search => TurnView {
            step: StepView::Search { query: request.content },
            log: Seq::empty(),
        },
        RequestAction::Add => TurnView {
            step: StepView::Resolve { track_id: request.content },
            log: Seq::empty(),
        },
        RequestAction::Status => TurnView {
            step: StepView::Send {
                text: envelope(ResponseAction::Status, status_content(e.jobs)),
            },
            log: failure_reasons(e.jobs),
        },
        RequestAction::Download => match e.retrieved(request.content) {
            Some(path) => TurnView {
                step: StepView::Fetch { path, file_name: base_name(path, separator) },
                log: Seq::empty(),
            },
            None => TurnView {
                step: StepView::Send { text: envelope(ResponseAction::NotFound, not_available()) },
                log: Seq::empty(),
            },
        },
    }
}

/// The engine after a request: a `Download` takes the job out whose
/// artifact it hands out; no other request changes the engine.
pub open spec fn engine_after_request(e: EngineView, request: RequestView) -> EngineView {
    match request.action {
        RequestAction::Download => e.retrieve(request.content),
        _ => e,
    }
}

/// The turn that follows a read.
pub open spec fn turn_for(e: EngineView, incoming: IncomingView, separator: char) -> TurnView {
    match incoming {
        IncomingView::Closed => TurnView { step: StepView::Close, log: Seq::empty() },
        IncomingView::Other => TurnView { step: StepView::Continue, log: seq![not_text()] },
        IncomingView::Text(text) => match decoded(text) {
            Ok(request) => turn_for_request(e, request, separator),
            Err(error) => TurnView {
                step: StepView::Send { text: envelope(ResponseAction::Error, complaint(error)) },
                log: seq![complaint(error)],
            },
        },
    }
}

/// The engine after a read.
pub open spec fn engine_after(e: EngineView, incoming: IncomingView) -> EngineView {
    match incoming {
        IncomingView::Text(text) => match decoded(text) {
            Ok(request) => engine_after_request(e, request),
            Err(_) => e,
        },
        _ => e,
    }
}

/// Session isolation: a text frame that is no request is answered with an
/// `Error` response, the session goes on, and the engine, which is all that
/// sessions share, is left as it was.
pub proof fn lemma_bad_request_is_contained(e: EngineView, text: Seq<char>, separator: char)
    requires
        decoded(text) is Err,
    ensures
        engine_after(e, IncomingView::Text(text)) == e,
        turn_for(e, IncomingView::Text(text), separator).step == (StepView::Send {
            text: envelope(ResponseAction::Error, complaint(decoded(text)->Err_0)),
        }),
{
}

/// Only a failed read ends a session.
pub proof fn lemma_session_ends_on_failed_read(
    e: EngineView,
    incoming: IncomingView,
    separator: char,
)
    ensures
        turn_for(e, incoming, separator).step is Close <==> incoming is Closed,
{
}

/// What a client is told about a text frame that is no request.
pub fn complaint_text(error: ProtocolError) -> (r: String)
    ensures
        r@ == complaint(error),
{
    match error {
        ProtocolError::Malformed => String::from_str("Malformed request"),
        ProtocolError::MissingAction => String::from_str("Request without action"),
        ProtocolError::UnknownAction => String::from_str("Unknown action"),
        ProtocolError::MissingContent => String::from_str("Request without content"),
    }
}

/// Serves one request. `Search` and `Add` need the catalog and are handed
/// back as steps; `Status` is answered from a snapshot; `Download` takes the
/// finished job out of the engine and asks for its file, or answers
/// `NotFound`.
pub fn handle_request(engine: &mut JobEngine, request: Request, separator: char) -> (r: Turn)
    requires
        old(engine).wf(),
    ensures
        final(engine).wf(),
        final(engine)@ == engine_after_request(old(engine)@, request@),
        r@ == turn_for_request(old(engine)@, request@, separator),
        old(engine)@.evolves_into(final(engine)@),
{
    proof {
        lemma_evolution_reflexive(engine@);
    }
    match request.action {
        RequestAction::Search => Turn {
            step: Step::Search { query: request.content },
            log: empty_log(),
        },
        RequestAction::Add => Turn {
            step: Step::Resolve { track_id: request.content },
            log: empty_log(),
        },
        RequestAction::Status => {
            let jobs = engine.snapshot();
            let (shown, reasons) = project(&jobs);
            let content = status_payload(&shown);
            Turn {
                step: Step::Send {
                    text: encode_response(ResponseAction::Status, content.as_str()),
                },
                log: reasons,
            }
        },
        RequestAction::Download => match engine.retrieve_artifact(request.content.as_str()) {
            Some(path) => {
                let name = file_name(path.as_str(), separator);
                Turn { step: Step::Fetch { path, file_name: name }, log: empty_log() }
            },
            None => Turn {
                step: Step::Send {
                    text: encode_response(ResponseAction::NotFound, "Requested file not available"),
                },
                log: empty_log(),
            },
        },
    }
}

/// A log without lines.
fn empty_log() -> (r: Vec<String>)
    ensures
        texts(r@) == Seq::<Seq<char>>::empty(),
{
    let r: Vec<String> = Vec::new();
    assert(texts(r@) =~= Seq::<Seq<char>>::empty());
    r
}

/// A log of one line.
fn one_line(line: String) -> (r: Vec<String>)
    ensures
        texts(r@) == seq![line@],
{
    let mut r: Vec<String> = Vec::new();
    r.push(line);
    assert(texts(r@) =~= seq![line@]);
    r
}

/// Decides what follows a read: a failed read ends the session, a frame
/// that is not text is passed over, a text frame that is no request is
/// answered with an `Error` response, and a request is served.
pub fn on_message(engine: &mut JobEngine, incoming: Incoming, separator: char) -> (r: Turn)
    requires
        old(engine).wf(),
    ensures
        final(engine).wf(),
        final(engine)@ == engine_after(old(engine)@, incoming@),
        r@ == turn_for(old(engine)@, incoming@, separator),
        old(engine)@.evolves_into(final(engine)@),
        r.step is Close <==> incoming is Closed,
{
    proof {
        lemma_evolution_reflexive(engine@);
    }
    match incoming {
        Incoming::Closed => Turn { step: Step::Close, log: empty_log() },
        Incoming::Other => Turn {
            step: Step::Continue,
            log: one_line(String::from_str("Client sent non-text message")),
        },
        Incoming::Text(text) => match decode_request(text.as_str()) {
            Ok(request) => handle_request(engine, request, separator),
            Err(error) => {
                let line = complaint_text(error);
                Turn {
                    step: Step::Send {
                        text: encode_response(ResponseAction::Error, line.as_str()),
                    },
                    log: one_line(line),
                }
            },
        },
    }
}

/// The turn after a search: the results go out in a `Search` response, a
/// failure of the search in an `Error` response.
pub open spec fn search_turn(outcome: Result<Seq<SearchResultView>, Seq<char>>) -> TurnView {
    match outcome {
        Ok(results) => TurnView {
            step: StepView::Send { text: envelope(ResponseAction::Search, search_content(results)) },
            log: Seq::empty(),
        },
        Err(reason) => TurnView {
            step: StepView::Send { text: envelope(ResponseAction::Error, reason) },
            log: seq![reason],
        },
    }
}

/// Decides what follows a search of the catalog.
pub fn search_reply(outcome: Result<Vec<SearchResult>, String>) -> (r: Turn)
    ensures
        r@ == search_turn(
            match outcome {
                Ok(results) => Ok(result_views(results@)),
                Err(reason) => Err(reason@),
            },
        ),
{
    match outcome {
        Ok(results) => {
            let content = search_payload(&results);
            Turn {
                step: Step::Send {
                    text: encode_response(ResponseAction::Search, content.as_str()),
                },
                log: empty_log(),
            }
        },
        Err(reason) => Turn {
            step: Step::Send { text: encode_response(ResponseAction::Error, reason.as_str()) },
            log: one_line(reason),
        },
    }
}

/// The log line for a track that was queued.
pub open spec fn added_line(track_id: Seq<char>) -> Seq<char> {
    "Added track to downloads: "@ + track_id
}

/// The turn after a track was looked up for an `Add` request: where it was
/// found it is submitted and nothing is sent, unless the engine can accept
/// no job; where it was not, the client gets an `Error` response.
pub open spec fn add_turn(
    e: EngineView,
    outcome: Result<SearchResultView, Seq<char>>,
) -> TurnView {
    match outcome {
        Ok(track) => match e.submit_outcome(track.track_id) {
            Ok(_) => TurnView { step: StepView::Continue, log: seq![added_line(track.track_id)] },
            Err(_) => TurnView {
                step: StepView::Send { text: envelope(ResponseAction::Error, no_room()) },
                log: seq![no_room()],
            },
        },
        Err(reason) => TurnView {
            step: StepView::Send { text: envelope(ResponseAction::Error, reason) },
            log: seq![reason],
        },
    }
}

/// The engine after a track was looked up for an `Add` request.
pub open spec fn engine_after_add(
    e: EngineView,
    outcome: Result<SearchResultView, Seq<char>>,
) -> EngineView {
    match outcome {
        Ok(track) => e.submit(track.track_id, track.title, track.author),
        Err(_) => e,
    }
}

/// Decides what follows the lookup of a track for an `Add` request, and
/// submits the track where it was found.
pub fn add_reply(engine: &mut JobEngine, outcome: Result<SearchResult, String>) -> (r: Turn)
    requires
        old(engine).wf(),
    ensures
        final(engine).wf(),
        final(engine)@ == engine_after_add(
            old(engine)@,
            match outcome {
                Ok(track) => Ok(track@),
                Err(reason) => Err(reason@),
            },
        ),
        r@ == add_turn(
            old(engine)@,
            match outcome {
                Ok(track) => Ok(track@),
                Err(reason) => Err(reason@),
            },
        ),
        old(engine)@.evolves_into(final(engine)@),
{
    proof {
        lemma_evolution_reflexive(engine@);
    }
    match outcome {
        Ok(track) => {
            let mut line = String::from_str("Added track to downloads: ");
            line.append(track.track_id.as_str());
            match engine.submit(track.track_id, track.title, track.author) {
                Ok(_) => Turn { step: Step::Continue, log: one_line(line) },
                Err(SubmitError::Exhausted) => {
                    let text = String::from_str("No further job can be accepted");
                    Turn {
                        step: Step::Send {
                            text: encode_response(ResponseAction::Error, text.as_str()),
                        },
                        log: one_line(text),
                    }
                },
            }
        },
        Err(reason) => Turn {
            step: Step::Send { text: encode_response(ResponseAction::Error, reason.as_str()) },
            log: one_line(reason),
        },
    }
}

/// The log line for an artifact that could not be read.
pub open spec fn missing_line(reason: Seq<char>) -> Seq<char> {
    "File not found: "@ + reason
}

/// The turn after the artifact file was read: its name goes out in a
/// `Download` response with the bytes right behind it; where the file could
/// not be read the client gets `NotFound`.
pub open spec fn artifact_turn(file_name: Seq<char>, content: Result<Seq<u8>, Seq<char>>) -> TurnView {
    match content {
        Ok(bytes) => TurnView {
            step: StepView::SendFile {
                text: envelope(ResponseAction::Download, file_name),
                payload: bytes,
            },
            log: Seq::empty(),
        },
        Err(reason) => TurnView {
            step: StepView::Send { text: envelope(ResponseAction::NotFound, not_available()) },
            log: seq![missing_line(reason)],
        },
    }
}

/// Decides what follows the reading of an artifact file.
pub fn artifact_reply(file_name: &str, content: Result<Vec<u8>, String>) -> (r: Turn)
    ensures
        r@ == artifact_turn(
            file_name@,
            match content {
                Ok(bytes) => Ok(bytes@),
                Err(reason) => Err(reason@),
            },
        ),
{
    match content {
        Ok(bytes) => Turn {
            step: Step::SendFile {
                text: encode_response(ResponseAction::Download, file_name),
                payload: bytes,
            },
            log: empty_log(),
        },
        Err(reason) => {
            let mut line = String::from_str("File not found: ");
            line.append(reason.as_str());
            Turn {
                step: Step::Send {
                    text: encode_response(ResponseAction::NotFound, "Requested file not available"),
                },
                log: one_line(line),
            }
        },
    }
}

} // verus!
