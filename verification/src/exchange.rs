use crate::error::{pretty_text, ErrorExt};
use crate::request::{parsed, process_get, request_names_action, Request, RequestError};
use crate::text::{appended, texts, to_bytes};
use vstd::pervasive::unreached;
use vstd::prelude::*;
use vstd::utf8::encode_utf8;

verus! {

/// The largest request that is read, in bytes.
pub const MAX_REQUEST: usize = 64 * 1024;

/// How far the exchange with a client on one stream has come. `S` is the type of texts.
pub enum State<S> {
    /// The request is being read.
    Reading,
    /// The authenticator is asked what the client requested.
    Executing { request: Request<S> },
    /// The response is being sent.
    Writing,
    /// The stream is being closed.
    Closing,
    /// Nothing is left to do.
    Finished,
}

/// What came of the last action. `S` is the type of texts, `B` that of byte strings.
pub enum Event<S, B> {
    Received { request: B },
    ReadFailed { reason: S },
    /// What the authenticator said: the text it gave, or the error.
    Executed { outcome: Result<S, S> },
    Written,
    WriteFailed { reason: S },
    Closed,
    CloseFailed { reason: S },
}

/// What is to be done next.
pub enum Action<S, B> {
    /// Read the request, up to `limit` bytes.
    Read { limit: usize },
    /// Ask the authenticator.
    Execute { request: Request<S> },
    /// Send the response. Where the request is refused, `refusal` is the error to be logged.
    Write { response: B, refusal: Option<S> },
    /// Close the stream.
    Close,
    /// Log how the exchange ended.
    Finish { result: Result<(), S> },
}

/// One step of an exchange: what is printed, then where the exchange is, and what is to be done.
/// `L` is the type of the lines that are printed.
pub struct Step<S, B, L> {
    pub lines: L,
    pub state: State<S>,
    pub action: Action<S, B>,
}

// What contracts speak of.

impl View for State<String> {
    type V = State<Seq<char>>;

    open spec fn view(&self) -> State<Seq<char>> {
        match self {
            State::Reading => State::Reading,
            State::Executing { request } => State::Executing { request: request@ },
            State::Writing => State::Writing,
            State::Closing => State::Closing,
            State::Finished => State::Finished,
        }
    }
}

/// The text that the authenticator gave, or its error.
pub open spec fn outcome_text(outcome: Result<String, String>) -> Result<Seq<char>, Seq<char>> {
    match outcome {
        Ok(text) => Ok(text@),
        Err(reason) => Err(reason@),
    }
}

impl View for Event<String, Vec<u8>> {
    type V = Event<Seq<char>, Seq<u8>>;

    open spec fn view(&self) -> Event<Seq<char>, Seq<u8>> {
        match self {
            Event::Received { request } => Event::Received { request: request@ },
            Event::ReadFailed { reason } => Event::ReadFailed { reason: reason@ },
            Event::Executed { outcome } => Event::Executed { outcome: outcome_text(*outcome) },
            Event::Written => Event::Written,
            Event::WriteFailed { reason } => Event::WriteFailed { reason: reason@ },
            Event::Closed => Event::Closed,
            Event::CloseFailed { reason } => Event::CloseFailed { reason: reason@ },
        }
    }
}

impl View for Action<String, Vec<u8>> {
    type V = Action<Seq<char>, Seq<u8>>;

    open spec fn view(&self) -> Action<Seq<char>, Seq<u8>> {
        match self {
            Action::Read { limit } => Action::Read { limit: *limit },
            Action::Execute { request } => Action::Execute { request: request@ },
            Action::Write { response, refusal } => Action::Write {
                response: response@,
                refusal: match refusal {
                    None => None,
                    Some(text) => Some(text@),
                },
            },
            Action::Close => Action::Close,
            Action::Finish { result } => Action::Finish {
                result: match result {
                    Ok(()) => Ok(()),
                    Err(text) => Err(text@),
                },
            },
        }
    }
}

impl View for Step<String, Vec<u8>, Vec<String>> {
    type V = Step<Seq<char>, Seq<u8>, Seq<Seq<char>>>;

    open spec fn view(&self) -> Step<Seq<char>, Seq<u8>, Seq<Seq<char>>> {
        Step { lines: texts(self.lines@), state: self.state@, action: self.action@ }
    }
}

// What is printed and answered.

impl Request<Seq<char>> {
    /// The line that is printed before the authenticator is asked.
    pub open spec fn opening_line(self) -> Seq<char> {
        match self {
            Request::LogIn { .. } => "Logging in to SAFE account..."@,
            Request::LogOut => "Logging out..."@,
            Request::Create { .. } => "Creating an account in SAFE..."@,
            Request::Authorise { .. } => "Authorising application..."@,
            Request::AuthedApps => "Obtaining list of authorised applications..."@,
            Request::Revoke { .. } => "Revoking application..."@,
        }
    }

    /// The line that is printed when the authenticator has done it.
    pub open spec fn success_line(self) -> Seq<char> {
        match self {
            Request::LogIn { .. } => "Logged in successfully"@,
            Request::LogOut => "Logged out successfully"@,
            Request::Create { .. } => "Account created successfully"@,
            Request::Authorise { .. } => "Authorisation response sent"@,
            Request::AuthedApps => "List of authorised apps sent"@,
            Request::Revoke { .. } => "Application revoked successfully"@,
        }
    }

    /// The line that is printed when the authenticator has failed.
    pub open spec fn failure_line(self, reason: Seq<char>) -> Seq<char> {
        match self {
            Request::LogIn { .. } => "Error occurred when trying to log in: "@ + reason,
            Request::LogOut => "Failed to log out: "@ + reason,
            Request::Create { .. } => "Error occurred when trying to create SAFE account: "@ + reason,
            Request::Authorise { .. } => "Failed to authorise: "@ + reason,
            Request::AuthedApps => "Failed to get list of authorised apps: "@ + reason,
            Request::Revoke { app_id } => "Failed to revoke application '"@ + app_id + "': "@ + reason,
        }
    }

    /// What the client is told when the authenticator has done it and gave `text`.
    pub open spec fn success_answer(self, text: Seq<char>) -> Seq<char> {
        match self {
            Request::LogIn { .. } => "Logged in successfully!"@,
            Request::LogOut => "Logged out successfully"@,
            Request::Create { .. } => "Account created successfully!"@,
            Request::Authorise { .. } => text,
            Request::AuthedApps => text,
            Request::Revoke { .. } => "Application revoked successfully"@,
        }
    }

    /// The error with which the request is refused when the authenticator has failed.
    pub open spec fn failure_message(self, reason: Seq<char>) -> Seq<char> {
        match self {
            Request::LogOut => "Failed to log out: "@ + reason,
            _ => reason,
        }
    }
}

/// The line that is printed of a request that is not understood.
pub open spec fn misunderstood_lines(error: RequestError<Seq<char>>) -> Seq<Seq<char>> {
    match error {
        RequestError::UnknownAction { action } => seq![
            "Action '"@ + action + "' not supported or unknown by the Authenticator daemon"@,
        ],
        _ => seq![],
    }
}

/// What a client is told of an error.
pub open spec fn refusal_answer(error: Seq<char>) -> Seq<char> {
    "[AUTHD_ERROR]:SAFE Authenticator: "@ + error
}

// The steps of an exchange.

/// Sending `text` to the client.
pub open spec fn answering(
    lines: Seq<Seq<char>>,
    text: Seq<char>,
) -> Step<Seq<char>, Seq<u8>, Seq<Seq<char>>> {
    Step {
        lines,
        state: State::Writing,
        action: Action::Write { response: encode_utf8(text), refusal: None },
    }
}

/// Telling the client of an error.
pub open spec fn refusing(
    lines: Seq<Seq<char>>,
    error: Seq<char>,
) -> Step<Seq<char>, Seq<u8>, Seq<Seq<char>>> {
    Step {
        lines,
        state: State::Writing,
        action: Action::Write {
            response: encode_utf8(refusal_answer(error)),
            refusal: Some(error),
        },
    }
}

/// The end of the exchange.
pub open spec fn finishing(
    result: Result<(), Seq<char>>,
) -> Step<Seq<char>, Seq<u8>, Seq<Seq<char>>> {
    Step { lines: seq![], state: State::Finished, action: Action::Finish { result } }
}

/// The first step of an exchange.
pub open spec fn opening() -> Step<Seq<char>, Seq<u8>, Seq<Seq<char>>> {
    Step { lines: seq![], state: State::Reading, action: Action::Read { limit: MAX_REQUEST } }
}

/// Whether `event` can come of the action that was asked for on entering `state`. Of a request, its
/// path has a slash.
pub open spec fn accepts(state: State<Seq<char>>, event: Event<Seq<char>, Seq<u8>>) -> bool {
    match state {
        State::Reading => match event {
            Event::Received { request } => request_names_action(request),
            Event::ReadFailed { .. } => true,
            _ => false,
        },
        State::Executing { .. } => event is Executed,
        State::Writing => event is Written || event is WriteFailed,
        State::Closing => event is Closed || event is CloseFailed,
        State::Finished => false,
    }
}

/// The step that follows on `event`.
pub open spec fn next(
    state: State<Seq<char>>,
    event: Event<Seq<char>, Seq<u8>>,
) -> Step<Seq<char>, Seq<u8>, Seq<Seq<char>>> {
    match event {
        Event::Received { request } => match parsed(request) {
            Ok(request) => Step {
                lines: seq![request.opening_line()],
                state: State::Executing { request },
                action: Action::Execute { request },
            },
            Err(error) => refusing(misunderstood_lines(error), pretty_text(error.chain())),
        },
        Event::ReadFailed { reason } => finishing(Err("Failed reading request: "@ + reason)),
        Event::Executed { outcome } => {
            let request = state->request;
            match outcome {
                Ok(text) => answering(seq![request.success_line()], request.success_answer(text)),
                Err(reason) => refusing(
                    seq![request.failure_line(reason)],
                    request.failure_message(reason),
                ),
            }
        },
        Event::Written => Step { lines: seq![], state: State::Closing, action: Action::Close },
        Event::WriteFailed { reason } => finishing(Err("Failed to send response: "@ + reason)),
        Event::Closed => finishing(Ok(())),
        Event::CloseFailed { reason } => finishing(Err("Failed to shutdown stream: "@ + reason)),
    }
}

/// The line that is printed before the authenticator is asked.
fn opening_line(request: &Request<String>) -> (line: String)
    ensures
        line@ == request@.opening_line(),
{
    match request {
        Request::LogIn { .. } => "Logging in to SAFE account...",
        Request::LogOut => "Logging out...",
        Request::Create { .. } => "Creating an account in SAFE...",
        Request::Authorise { .. } => "Authorising application...",
        Request::AuthedApps => "Obtaining list of authorised applications...",
        Request::Revoke { .. } => "Revoking application...",
    }.to_string()
}

/// The line that is printed when the authenticator has done it.
fn success_line(request: &Request<String>) -> (line: String)
    ensures
        line@ == request@.success_line(),
{
    match request {
        Request::LogIn { .. } => "Logged in successfully",
        Request::LogOut => "Logged out successfully",
        Request::Create { .. } => "Account created successfully",
        Request::Authorise { .. } => "Authorisation response sent",
        Request::AuthedApps => "List of authorised apps sent",
        Request::Revoke { .. } => "Application revoked successfully",
    }.to_string()
}

/// The line that is printed when the authenticator has failed.
fn failure_line(request: &Request<String>, reason: &str) -> (line: String)
    ensures
        line@ == request@.failure_line(reason@),
{
    match request {
        Request::LogIn { .. } => appended("Error occurred when trying to log in: ", reason),
        Request::LogOut => appended("Failed to log out: ", reason),
        Request::Create { .. } => appended(
            "Error occurred when trying to create SAFE account: ",
            reason,
        ),
        Request::Authorise { .. } => appended("Failed to authorise: ", reason),
        Request::AuthedApps => appended("Failed to get list of authorised apps: ", reason),
        Request::Revoke { app_id } => {
            let mut line = appended("Failed to revoke application '", app_id.as_str());
            line.append("': ");
            line.append(reason);
            line
        },
    }
}

/// What the client is told when the authenticator has done it and gave `text`.
fn success_answer(request: &Request<String>, text: String) -> (answer: String)
    ensures
        answer@ == request@.success_answer(text@),
{
    match request {
        Request::LogIn { .. } => "Logged in successfully!".to_string(),
        Request::LogOut => "Logged out successfully".to_string(),
        Request::Create { .. } => "Account created successfully!".to_string(),
        Request::Authorise { .. } => text,
        Request::AuthedApps => text,
        Request::Revoke { .. } => "Application revoked successfully".to_string(),
    }
}

/// The error with which the request is refused when the authenticator has failed.
fn failure_message(request: &Request<String>, reason: String) -> (message: String)
    ensures
        message@ == request@.failure_message(reason@),
{
    match request {
        Request::LogOut => appended("Failed to log out: ", reason.as_str()),
        _ => reason,
    }
}

/// Telling the client of an error.
fn refuse(lines: Vec<String>, error: String) -> (step: Step<String, Vec<u8>, Vec<String>>)
    ensures
        step@ == refusing(texts(lines@), error@),
{
    let answer = appended("[AUTHD_ERROR]:SAFE Authenticator: ", error.as_str());
    Step {
        lines,
        state: State::Writing,
        action: Action::Write { response: to_bytes(answer.as_str()), refusal: Some(error) },
    }
}

/// The end of the exchange.
fn finish(result: Result<(), String>) -> (step: Step<String, Vec<u8>, Vec<String>>)
    ensures
        step@ == finishing(
            match result {
                Ok(()) => Ok(()),
                Err(text) => Err(text@),
            },
        ),
{
    let step = Step {
        lines: Vec::new(),
        state: State::Finished,
        action: Action::Finish { result },
    };
    assert(step@.lines =~= seq![]);
    step
}

/// A single line.
fn one_line(line: String) -> (lines: Vec<String>)
    ensures
        texts(lines@) == seq![line@],
{
    let mut lines: Vec<String> = Vec::new();
    lines.push(line);
    assert(texts(lines@) =~= seq![line@]);
    lines
}

/// The first step of the exchange with a client on one stream.
pub fn handle_request() -> (step: Step<String, Vec<u8>, Vec<String>>)
    ensures
        step@ == opening(),
{
    let step = Step {
        lines: Vec::new(),
        state: State::Reading,
        action: Action::Read { limit: MAX_REQUEST },
    };
    assert(step@.lines =~= seq![]);
    step
}

/// The step that follows when a request was received.
fn receive(request: &[u8]) -> (step: Step<String, Vec<u8>, Vec<String>>)
    requires
        request_names_action(request@),
    ensures
        step@ == next(State::Reading, Event::Received { request: request@ }),
{
    match process_get(request) {
        Ok(request) => Step {
            lines: one_line(opening_line(&request)),
            state: State::Executing { request: request.clone() },
            action: Action::Execute { request },
        },
        Err(error) => {
            let text = error.pretty().to_string();
            match error {
                RequestError::UnknownAction { action } => {
                    let mut line = appended("Action '", action.as_str());
                    line.append("' not supported or unknown by the Authenticator daemon");
                    refuse(one_line(line), text)
                },
                _ => {
                    let lines: Vec<String> = Vec::new();
                    assert(texts(lines@) =~= seq![]);
                    refuse(lines, text)
                },
            }
        },
    }
}

/// The step that follows when the authenticator was asked.
fn conclude(request: Request<String>, outcome: Result<String, String>) -> (step: Step<
    String,
    Vec<u8>,
    Vec<String>,
>)
    ensures
        step@ == next(
            State::Executing { request: request@ },
            Event::Executed { outcome: outcome_text(outcome) },
        ),
{
    match outcome {
        Ok(text) => {
            let lines = one_line(success_line(&request));
            let answer = success_answer(&request, text);
            Step {
                lines,
                state: State::Writing,
                action: Action::Write { response: to_bytes(answer.as_str()), refusal: None },
            }
        },
        Err(reason) => {
            let lines = one_line(failure_line(&request, reason.as_str()));
            refuse(lines, failure_message(&request, reason))
        },
    }
}

/// The step that follows on `event`, which came of the action that was asked for on entering
/// `state`.
pub fn proceed(state: State<String>, event: Event<String, Vec<u8>>) -> (step: Step<
    String,
    Vec<u8>,
    Vec<String>,
>)
    requires
        accepts(state@, event@),
    ensures
        step@ == next(state@, event@),
{
    match event {
        Event::Received { request } => receive(request.as_slice()),
        Event::ReadFailed { reason } => finish(
            Err(appended("Failed reading request: ", reason.as_str())),
        ),
        Event::Executed { outcome } => match state {
            State::Executing { request } => conclude(request, outcome),
            _ => unreached(),
        },
        Event::Written => {
            let step = Step { lines: Vec::new(), state: State::Closing, action: Action::Close };
            assert(step@.lines =~= seq![]);
            step
        },
        Event::WriteFailed { reason } => finish(
            Err(appended("Failed to send response: ", reason.as_str())),
        ),
        Event::Closed => finish(Ok(())),
        Event::CloseFailed { reason } => finish(
            Err(appended("Failed to shutdown stream: ", reason.as_str())),
        ),
    }
}

} // verus!
