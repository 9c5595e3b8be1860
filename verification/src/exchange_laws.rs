use crate::error::{law_context_in_front, pretty_text};
use crate::exchange::{
    accepts, handle_request, next, opening, outcome_text, proceed, refusal_answer, Action, Event,
    State, Step,
};
use crate::request::{parsed, request_names_action, Request, RequestError, Verb};
use crate::text::texts;
use vstd::prelude::*;
use vstd::utf8::{encode_utf8, is_ascii_chars_encode_utf8};

verus! {

/// The step that an exchange has come to after `events`.
pub open spec fn after(
    events: Seq<Event<Seq<char>, Seq<u8>>>,
) -> Step<Seq<char>, Seq<u8>, Seq<Seq<char>>>
    decreases events.len(),
{
    if events.len() == 0 {
        opening()
    } else {
        next(after(events.drop_last()).state, events.last())
    }
}

/// Whether each of `events` can come of the action before it.
pub open spec fn accepted(events: Seq<Event<Seq<char>, Seq<u8>>>) -> bool
    decreases events.len(),
{
    events.len() > 0 ==> accepted(events.drop_last()) && accepts(
        after(events.drop_last()).state,
        events.last(),
    )
}

/// The responses that are sent in the course of `events`.
pub open spec fn sent(events: Seq<Event<Seq<char>, Seq<u8>>>) -> Seq<Seq<u8>>
    decreases events.len(),
{
    if events.len() == 0 {
        seq![]
    } else {
        match after(events).action {
            Action::Write { response, .. } => sent(events.drop_last()).push(response),
            _ => sent(events.drop_last()),
        }
    }
}

/// How often the authenticator is asked in the course of `events`.
pub open spec fn asked(events: Seq<Event<Seq<char>, Seq<u8>>>) -> nat
    decreases events.len(),
{
    if events.len() == 0 {
        0
    } else {
        asked(events.drop_last()) + if after(events).action is Execute {
            1nat
        } else {
            0nat
        }
    }
}

/// What a client is sent for the request `x`, where `said` is what the authenticator says if it is
/// asked.
pub open spec fn response_to(x: Seq<u8>, said: Result<Seq<char>, Seq<char>>) -> Seq<u8> {
    match parsed(x) {
        Err(error) => encode_utf8(refusal_answer(pretty_text(error.chain()))),
        Ok(request) => match said {
            Ok(text) => encode_utf8(request.success_answer(text)),
            Err(reason) => encode_utf8(refusal_answer(request.failure_message(reason))),
        },
    }
}

/// How many steps are left at most.
pub open spec fn steps_left(state: State<Seq<char>>) -> nat {
    match state {
        State::Reading => 4,
        State::Executing { .. } => 3,
        State::Writing => 2,
        State::Closing => 1,
        State::Finished => 0,
    }
}

/// What holds of an exchange that has come to some state.
spec fn consistent(events: Seq<Event<Seq<char>, Seq<u8>>>) -> bool {
    let request = events[0]->Received_request;
    &&& events.len() + steps_left(after(events).state) <= 4
    &&& match after(events).state {
        State::Reading => events.len() == 0 && sent(events).len() == 0 && asked(events) == 0,
        State::Executing { request: understood } => {
            &&& events.len() == 1
            &&& events[0] is Received
            &&& parsed(request) == Ok::<_, RequestError<Seq<char>>>(understood)
            &&& sent(events).len() == 0
            &&& asked(events) == 1
        },
        State::Writing | State::Closing => answered(events),
        State::Finished => {
            ||| {
                &&& after(events).action matches Action::Finish { result: Err(_) }
                &&& sent(events).len() == 0
                &&& asked(events) == 0
            }
            ||| answered(events)
        },
    }
}

/// Whether the request that was received has been answered, and that once.
pub open spec fn answered(events: Seq<Event<Seq<char>, Seq<u8>>>) -> bool {
    let request = events[0]->Received_request;
    &&& events.len() >= 1
    &&& events[0] is Received
    &&& if parsed(request) is Ok {
        &&& events.len() >= 2
        &&& events[1] is Executed
        &&& asked(events) == 1
        &&& sent(events) == seq![response_to(request, events[1]->outcome)]
    } else {
        &&& asked(events) == 0
        &&& forall|said: Result<Seq<char>, Seq<char>>|
            sent(events) == seq![#[trigger] response_to(request, said)]
    }
}

proof fn lemma_consistent(events: Seq<Event<Seq<char>, Seq<u8>>>)
    requires
        accepted(events),
    ensures
        consistent(events),
    decreases events.len(),
{
    if events.len() > 0 {
        let before = events.drop_last();
        lemma_consistent(before);
        if before.len() >= 1 {
            assert(events[0] == before[0]);
        }
        if before.len() >= 2 {
            assert(events[1] == before[1]);
        }
        let event = events.last();
        let state = after(before).state;
        assert(after(events) == next(state, event));
        if event is Received {
            assert(before.len() == 0);
            assert(events[0] == event);
            let request = event->Received_request;
            if parsed(request) is Err {
                assert(sent(before) =~= seq![]);
                assert forall|said: Result<Seq<char>, Seq<char>>|
                    sent(events) == seq![#[trigger] response_to(request, said)] by {
                    assert(sent(events) =~= seq![response_to(request, said)]);
                }
            }
        } else if event is Executed {
            assert(before.len() == 1);
            assert(events[1] == event);
            let request = events[0]->Received_request;
            assert(sent(before) =~= seq![]);
            assert(sent(events) =~= seq![response_to(request, event->outcome)]);
        }
    }
}

/// An exchange ends: after at most four events nothing is left to do, and each event brings the end
/// nearer.
pub proof fn law_exchange_ends(
    state: State<Seq<char>>,
    event: Event<Seq<char>, Seq<u8>>,
    events: Seq<Event<Seq<char>, Seq<u8>>>,
)
    requires
        accepts(state, event),
        accepted(events),
    ensures
        steps_left(next(state, event).state) < steps_left(state),
        next(state, event).state is Finished <==> next(state, event).action is Finish,
        events.len() <= 4,
{
    lemma_consistent(events);
}

/// A request is answered once. However an exchange goes, the authenticator is asked at most once,
/// and at most one response is sent; where the exchange ends well, one was sent, and it is the one
/// that the request is owed.
pub proof fn law_one_response(events: Seq<Event<Seq<char>, Seq<u8>>>)
    requires
        accepted(events),
    ensures
        sent(events).len() <= 1,
        asked(events) <= 1,
        after(events).action matches Action::Finish { result: Ok(()) } ==> answered(events),
{
    lemma_consistent(events);
}

/// A request that is not understood is refused: the authenticator is not asked, and the client is
/// sent the error behind the mark by which it knows errors.
pub proof fn law_misunderstood_refused(x: Seq<u8>, error: RequestError<Seq<char>>)
    requires
        request_names_action(x),
        parsed(x) == Err::<Request<Seq<char>>, RequestError<Seq<char>>>(error),
    ensures
        accepts(State::Reading, Event::Received { request: x }),
        next(State::Reading, Event::Received { request: x }).action == (Action::Write {
            response: encode_utf8(
                "[AUTHD_ERROR]:SAFE Authenticator: "@ + pretty_text(error.chain()),
            ),
            refusal: Some(pretty_text(error.chain())),
        }),
{
}

/// A request that the authenticator could not carry out is refused, with its error behind the mark.
pub proof fn law_failure_refused(request: Request<Seq<char>>, reason: Seq<char>)
    ensures
        accepts(State::Executing { request }, Event::Executed { outcome: Err(reason) }),
        next(State::Executing { request }, Event::Executed { outcome: Err(reason) }).action == (
        Action::Write {
            response: encode_utf8(
                "[AUTHD_ERROR]:SAFE Authenticator: "@ + request.failure_message(reason),
            ),
            refusal: Some(request.failure_message(reason)),
        }),
{
}

/// Encoding one text behind another gives one encoding behind the other.
proof fn lemma_encode_concat(a: Seq<char>, b: Seq<char>)
    ensures
        encode_utf8(a + b) == encode_utf8(a) + encode_utf8(b),
    decreases a.len(),
{
    if a.len() == 0 {
        assert(a + b =~= b);
        assert(encode_utf8(a) + encode_utf8(b) =~= encode_utf8(b));
    } else {
        lemma_encode_concat(a.drop_first(), b);
        assert((a + b).drop_first() =~= a.drop_first() + b);
        assert(encode_utf8(a + b) =~= encode_utf8(a) + encode_utf8(b));
    }
}

/// Texts that start with different ASCII characters have encodings that start with different bytes.
proof fn lemma_first_byte(text: Seq<char>)
    requires
        text.len() > 0,
        ' ' <= text[0] <= '~',
    ensures
        encode_utf8(text).len() > 0,
        encode_utf8(text)[0] == text[0] as u8,
{
    let head = seq![text[0]];
    assert(text =~= head + text.drop_first());
    lemma_encode_concat(head, text.drop_first());
    is_ascii_chars_encode_utf8(head);
    assert(encode_utf8(head)[0] == head[0] as u8);
}

/// The mark by which a client knows that a response is an error.
pub open spec fn error_mark() -> Seq<char> {
    "[AUTHD_ERROR]:"@
}

/// Whether a response starts with the mark of errors.
pub open spec fn marked(response: Seq<u8>) -> bool {
    encode_utf8(error_mark()).is_prefix_of(response)
}

/// Whether the response to a request that was carried out is a text that the authenticator gave.
pub open spec fn relayed(state: State<Seq<char>>) -> bool {
    state matches State::Executing { request } && (request is Authorise || request is AuthedApps)
}

/// The mark signals errors: every refusal bears it, and no other response does, unless the
/// authenticator itself gave a text that starts so.
pub proof fn law_mark_signals_error(
    state: State<Seq<char>>,
    event: Event<Seq<char>, Seq<u8>>,
    response: Seq<u8>,
    refusal: Option<Seq<char>>,
)
    requires
        accepts(state, event),
        next(state, event).action == (Action::Write { response, refusal }),
    ensures
        refusal is Some ==> marked(response),
        refusal is None && !relayed(state) ==> !marked(response),
{
    reveal_strlit("[AUTHD_ERROR]:");
    reveal_strlit("[AUTHD_ERROR]:SAFE Authenticator: ");
    lemma_first_byte(error_mark());
    if let Some(error) = refusal {
        let whole = refusal_answer(error);
        let rest = whole.skip(error_mark().len() as int);
        assert(whole =~= error_mark() + rest);
        lemma_encode_concat(error_mark(), rest);
    } else if !relayed(state) {
        reveal_strlit("Logged in successfully!");
        reveal_strlit("Logged out successfully");
        reveal_strlit("Account created successfully!");
        reveal_strlit("Application revoked successfully");
        let answer = state->request.success_answer(event->outcome->Ok_0);
        lemma_first_byte(answer);
        if marked(response) {
            assert(response[0] == encode_utf8(error_mark())[0]);
        }
    }
}

// What is asked, printed and answered.

/// A request of at most 64 KiB is read first, and nothing is printed before.
pub proof fn law_reads_first()
    ensures
        opening().lines == Seq::<Seq<char>>::empty(),
        opening().state is Reading,
        opening().action == (Action::<Seq<char>, Seq<u8>>::Read { limit: 65536 }),
{
}

/// The authenticator is asked the very request that was understood, and what follows is known to be
/// the reply to it. One line says what is being done.
pub proof fn law_asks_what_was_requested(x: Seq<u8>, request: Request<Seq<char>>)
    requires
        request_names_action(x),
        parsed(x) == Ok::<Request<Seq<char>>, RequestError<Seq<char>>>(request),
    ensures
        accepts(State::Reading, Event::Received { request: x }),
        next(State::Reading, Event::Received { request: x }).action == (Action::<
            Seq<char>,
            Seq<u8>,
        >::Execute { request }),
        next(State::Reading, Event::Received { request: x }).state == (State::Executing { request }),
        next(State::Reading, Event::Received { request: x }).lines == seq![
            match request {
                Request::LogIn { .. } => "Logging in to SAFE account..."@,
                Request::LogOut => "Logging out..."@,
                Request::Create { .. } => "Creating an account in SAFE..."@,
                Request::Authorise { .. } => "Authorising application..."@,
                Request::AuthedApps => "Obtaining list of authorised applications..."@,
                Request::Revoke { .. } => "Revoking application..."@,
            },
        ],
{
}

/// What the authenticator gives for an authorisation, or for a list of applications, the client is
/// sent whole and unchanged, whatever it is.
pub proof fn law_replies_relayed(auth_req: Seq<char>, text: Seq<char>)
    ensures
        next(
            State::Executing { request: Request::Authorise { auth_req } },
            Event::Executed { outcome: Ok(text) },
        ).action == (Action::<Seq<char>, Seq<u8>>::Write {
            response: encode_utf8(text),
            refusal: None,
        }),
        next(
            State::Executing { request: Request::AuthedApps },
            Event::Executed { outcome: Ok(text) },
        ).action == (Action::<Seq<char>, Seq<u8>>::Write {
            response: encode_utf8(text),
            refusal: None,
        }),
{
}

/// Whatever else the authenticator was asked, when it has done so the client is told in words that
/// are the same whatever the arguments were and whatever text came with it. In every case one line
/// says so.
pub proof fn law_success_told(request: Request<Seq<char>>, text: Seq<char>)
    ensures
        ({
            let step = next(State::Executing { request }, Event::Executed { outcome: Ok(text) });
            let told = match request {
                Request::LogIn { .. } => Some("Logged in successfully!"@),
                Request::LogOut => Some("Logged out successfully"@),
                Request::Create { .. } => Some("Account created successfully!"@),
                Request::Revoke { .. } => Some("Application revoked successfully"@),
                _ => None,
            };
            &&& told matches Some(words) ==> step.action == (Action::<Seq<char>, Seq<u8>>::Write {
                response: encode_utf8(words),
                refusal: None,
            })
            &&& step.state is Writing
            &&& step.lines == seq![
                match request {
                    Request::LogIn { .. } => "Logged in successfully"@,
                    Request::LogOut => "Logged out successfully"@,
                    Request::Create { .. } => "Account created successfully"@,
                    Request::Authorise { .. } => "Authorisation response sent"@,
                    Request::AuthedApps => "List of authorised apps sent"@,
                    Request::Revoke { .. } => "Application revoked successfully"@,
                },
            ]
        }),
{
}

/// When the authenticator has failed, the client is sent its whole reason behind the mark, and this
/// is logged too; of a log-out it is said that it failed. One line says what failed and why, and of
/// a revocation also for which application.
pub proof fn law_failure_told(request: Request<Seq<char>>, reason: Seq<char>)
    ensures
        ({
            let step = next(State::Executing { request }, Event::Executed { outcome: Err(reason) });
            let error = if request is LogOut {
                "Failed to log out: "@ + reason
            } else {
                reason
            };
            &&& step.action == (Action::<Seq<char>, Seq<u8>>::Write {
                response: encode_utf8("[AUTHD_ERROR]:SAFE Authenticator: "@ + error),
                refusal: Some(error),
            })
            &&& step.state is Writing
            &&& step.lines == seq![
                match request {
                    Request::LogIn { .. } => "Error occurred when trying to log in: "@ + reason,
                    Request::LogOut => "Failed to log out: "@ + reason,
                    Request::Create { .. } => {
                        "Error occurred when trying to create SAFE account: "@ + reason
                    },
                    Request::Authorise { .. } => "Failed to authorise: "@ + reason,
                    Request::AuthedApps => "Failed to get list of authorised apps: "@ + reason,
                    Request::Revoke { app_id } => {
                        "Failed to revoke application '"@ + app_id + "': "@ + reason
                    },
                },
            ]
        }),
{
}

/// The name by which a client asks for an action stands in the error about its arguments.
proof fn lemma_arguments_error(verb: Verb)
    ensures
        "Incorrect number of arguments for '"@ + verb.text() + "' action"@ == (match verb {
            Verb::LogIn => "Incorrect number of arguments for 'login' action"@,
            Verb::LogOut => "Incorrect number of arguments for 'logout' action"@,
            Verb::Create => "Incorrect number of arguments for 'create' action"@,
            Verb::Authorise => "Incorrect number of arguments for 'authorise' action"@,
            Verb::AuthedApps => "Incorrect number of arguments for 'authed-apps' action"@,
            Verb::Revoke => "Incorrect number of arguments for 'revoke' action"@,
        }),
{
    reveal_strlit("Incorrect number of arguments for '");
    reveal_strlit("' action");
    let whole = "Incorrect number of arguments for '"@ + verb.text() + "' action"@;
    match verb {
        Verb::LogIn => {
            reveal_strlit("login");
            reveal_strlit("Incorrect number of arguments for 'login' action");
            assert(whole =~= "Incorrect number of arguments for 'login' action"@);
        },
        Verb::LogOut => {
            reveal_strlit("logout");
            reveal_strlit("Incorrect number of arguments for 'logout' action");
            assert(whole =~= "Incorrect number of arguments for 'logout' action"@);
        },
        Verb::Create => {
            reveal_strlit("create");
            reveal_strlit("Incorrect number of arguments for 'create' action");
            assert(whole =~= "Incorrect number of arguments for 'create' action"@);
        },
        Verb::Authorise => {
            reveal_strlit("authorise");
            reveal_strlit("Incorrect number of arguments for 'authorise' action");
            assert(whole =~= "Incorrect number of arguments for 'authorise' action"@);
        },
        Verb::AuthedApps => {
            reveal_strlit("authed-apps");
            reveal_strlit("Incorrect number of arguments for 'authed-apps' action");
            assert(whole =~= "Incorrect number of arguments for 'authed-apps' action"@);
        },
        Verb::Revoke => {
            reveal_strlit("revoke");
            reveal_strlit("Incorrect number of arguments for 'revoke' action");
            assert(whole =~= "Incorrect number of arguments for 'revoke' action"@);
        },
    }
}

/// A client whose request is not understood is told why, behind the mark, and this is logged too. A
/// line is printed only of an action that is not known.
pub proof fn law_misunderstanding_told(x: Seq<u8>, error: RequestError<Seq<char>>)
    requires
        request_names_action(x),
        parsed(x) == Err::<Request<Seq<char>>, RequestError<Seq<char>>>(error),
    ensures
        ({
            let step = next(State::Reading, Event::Received { request: x });
            let why = match error {
                RequestError::MissingGet => "missing GET"@,
                RequestError::MissingCrLf => "missing \\r\\n"@,
                RequestError::MalformedPath { reason } => "path is malformed UTF-8"@ + ": "@ + reason,
                RequestError::WrongArguments { verb } => match verb {
                    Verb::LogIn => "Incorrect number of arguments for 'login' action"@,
                    Verb::LogOut => "Incorrect number of arguments for 'logout' action"@,
                    Verb::Create => "Incorrect number of arguments for 'create' action"@,
                    Verb::Authorise => "Incorrect number of arguments for 'authorise' action"@,
                    Verb::AuthedApps => "Incorrect number of arguments for 'authed-apps' action"@,
                    Verb::Revoke => "Incorrect number of arguments for 'revoke' action"@,
                },
                RequestError::UnknownAction { .. } => "Action not supported or unknown"@,
            };
            &&& step.action == (Action::<Seq<char>, Seq<u8>>::Write {
                response: encode_utf8("[AUTHD_ERROR]:SAFE Authenticator: "@ + why),
                refusal: Some(why),
            })
            &&& step.state is Writing
            &&& step.lines == (match error {
                RequestError::UnknownAction { action } => seq![
                    "Action '"@ + action
                        + "' not supported or unknown by the Authenticator daemon"@,
                ],
                _ => Seq::<Seq<char>>::empty(),
            })
        }),
{
    let chain = error.chain();
    match error {
        RequestError::MalformedPath { reason } => {
            law_context_in_front("path is malformed UTF-8"@, seq![reason]);
            law_context_in_front(reason, seq![reason]);
            assert(seq!["path is malformed UTF-8"@] + seq![reason] =~= chain);
        },
        RequestError::WrongArguments { verb } => {
            lemma_arguments_error(verb);
            law_context_in_front(chain[0], chain);
            assert(seq![chain[0]] =~= chain);
        },
        _ => {
            law_context_in_front(chain[0], chain);
            assert(seq![chain[0]] =~= chain);
        },
    }
}

/// When the response is sent, the stream is closed, and then the exchange has ended well. Where
/// reading, sending or closing fails, it ends with an error that says which of them, and the whole
/// reason. Nothing of this is printed.
pub proof fn law_ends_reported(state: State<Seq<char>>, reason: Seq<char>)
    ensures
        ({
            let after = |event: Event<Seq<char>, Seq<u8>>| next(state, event);
            let over = |step: Step<Seq<char>, Seq<u8>, Seq<Seq<char>>>, result: Result<(), Seq<char>>|
                {
                    &&& step.lines == Seq::<Seq<char>>::empty()
                    &&& step.state is Finished
                    &&& step.action == (Action::<Seq<char>, Seq<u8>>::Finish { result })
                };
            &&& after(Event::Written).lines == Seq::<Seq<char>>::empty()
            &&& after(Event::Written).state is Closing
            &&& after(Event::Written).action is Close
            &&& over(after(Event::Closed), Ok(()))
            &&& over(
                after(Event::ReadFailed { reason }),
                Err("Failed reading request: "@ + reason),
            )
            &&& over(
                after(Event::WriteFailed { reason }),
                Err("Failed to send response: "@ + reason),
            )
            &&& over(
                after(Event::CloseFailed { reason }),
                Err("Failed to shutdown stream: "@ + reason),
            )
        }),
{
}

/// Each state takes every event that can come of what is then being done, and no other.
pub proof fn law_events_expected(
    request: Request<Seq<char>>,
    x: Seq<u8>,
    said: Result<Seq<char>, Seq<char>>,
    reason: Seq<char>,
)
    ensures
        accepts(State::Reading, Event::Received { request: x }) <==> request_names_action(x),
        accepts(State::Reading, Event::ReadFailed { reason }),
        accepts(State::Executing { request }, Event::Executed { outcome: said }),
        accepts(State::Writing, Event::Written),
        accepts(State::Writing, Event::WriteFailed { reason }),
        accepts(State::Closing, Event::Closed),
        accepts(State::Closing, Event::CloseFailed { reason }),
        forall|state: State<Seq<char>>, event: Event<Seq<char>, Seq<u8>>| #[trigger]
            accepts(state, event) ==> match event {
                Event::Received { .. } | Event::ReadFailed { .. } => state is Reading,
                Event::Executed { .. } => state is Executing,
                Event::Written | Event::WriteFailed { .. } => state is Writing,
                Event::Closed | Event::CloseFailed { .. } => state is Closing,
            },
{
}

/// The views of an exchange keep each text, each byte string and each line in its place.
pub proof fn law_exchange_views(
    state: State<String>,
    event: Event<String, Vec<u8>>,
    action: Action<String, Vec<u8>>,
    step: Step<String, Vec<u8>, Vec<String>>,
)
    ensures
        state@ == (match state {
            State::Reading => State::Reading,
            State::Executing { request } => State::Executing { request: request@ },
            State::Writing => State::Writing,
            State::Closing => State::Closing,
            State::Finished => State::Finished,
        }),
        event@ == (match event {
            Event::Received { request } => Event::Received { request: request@ },
            Event::ReadFailed { reason } => Event::ReadFailed { reason: reason@ },
            Event::Executed { outcome: Ok(text) } => Event::Executed { outcome: Ok(text@) },
            Event::Executed { outcome: Err(reason) } => Event::Executed { outcome: Err(reason@) },
            Event::Written => Event::Written,
            Event::WriteFailed { reason } => Event::WriteFailed { reason: reason@ },
            Event::Closed => Event::Closed,
            Event::CloseFailed { reason } => Event::CloseFailed { reason: reason@ },
        }),
        action@ == (match action {
            Action::Read { limit } => Action::Read { limit },
            Action::Execute { request } => Action::Execute { request: request@ },
            Action::Write { response, refusal: None } => Action::Write {
                response: response@,
                refusal: None,
            },
            Action::Write { response, refusal: Some(text) } => Action::Write {
                response: response@,
                refusal: Some(text@),
            },
            Action::Close => Action::Close,
            Action::Finish { result: Ok(()) } => Action::Finish { result: Ok(()) },
            Action::Finish { result: Err(text) } => Action::Finish { result: Err(text@) },
        }),
        step@.state == step.state@,
        step@.action == step.action@,
        step@.lines.len() == step.lines@.len(),
        forall|i: int| 0 <= i < step.lines@.len() ==> #[trigger] step@.lines[i] == step.lines@[i]@,
        event matches Event::Executed { outcome } ==> event@ == (Event::<
            Seq<char>,
            Seq<u8>,
        >::Executed { outcome: outcome_text(outcome) }),
        step@.lines == texts(step.lines@),
{
}

/// An exchange takes this course: it is begun and gone on with as told.
pub proof fn law_exchange_taken(
    beginning: Step<String, Vec<u8>, Vec<String>>,
    state: State<String>,
    event: Event<String, Vec<u8>>,
    following: Step<String, Vec<u8>, Vec<String>>,
)
    requires
        call_ensures(handle_request, (), beginning),
        accepts(state@, event@),
        call_ensures(proceed, (state, event), following),
    ensures
        beginning@ == opening(),
        following@ == next(state@, event@),
{
}

} // verus!
