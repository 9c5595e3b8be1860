use crate::error::{ErrorExt, PrettyErr};
use crate::text::{
    from_utf8, law_split_then_join, same_text, split, split_text, texts, utf8_error_text,
};
use vstd::prelude::*;
use vstd::slice::slice_subrange;
use vstd::utf8::*;

verus! {

/// The actions that a client can name.
#[derive(Clone, Copy, PartialEq, Eq, Structural)]
pub enum Verb {
    LogIn,
    LogOut,
    Create,
    Authorise,
    AuthedApps,
    Revoke,
}

/// What a client asks of the authenticator. `S` is the type of the texts in it: `String`, or
/// `Seq<char>` where contracts speak of it.
pub enum Request<S> {
    LogIn { secret: S, password: S },
    LogOut,
    Create { secret: S, password: S, sk: S },
    Authorise { auth_req: S },
    AuthedApps,
    Revoke { app_id: S },
}

/// Why a request is not one that the authenticator can be asked.
pub enum RequestError<S> {
    /// It does not start with `GET` and a space.
    MissingGet,
    /// It does not end in carriage return and line feed.
    MissingCrLf,
    /// Its path is not UTF-8, for the reason given.
    MalformedPath { reason: S },
    /// The action takes another number of arguments.
    WrongArguments { verb: Verb },
    /// There is no action of that name.
    UnknownAction { action: S },
}

impl View for Request<String> {
    type V = Request<Seq<char>>;

    open spec fn view(&self) -> Request<Seq<char>> {
        match self {
            Request::LogIn { secret, password } => Request::LogIn {
                secret: secret@,
                password: password@,
            },
            Request::LogOut => Request::LogOut,
            Request::Create { secret, password, sk } => Request::Create {
                secret: secret@,
                password: password@,
                sk: sk@,
            },
            Request::Authorise { auth_req } => Request::Authorise { auth_req: auth_req@ },
            Request::AuthedApps => Request::AuthedApps,
            Request::Revoke { app_id } => Request::Revoke { app_id: app_id@ },
        }
    }
}

impl Clone for Request<String> {
    fn clone(&self) -> (r: Self)
        ensures
            r@ == self@,
    {
        match self {
            Request::LogIn { secret, password } => Request::LogIn {
                secret: secret.clone(),
                password: password.clone(),
            },
            Request::LogOut => Request::LogOut,
            Request::Create { secret, password, sk } => Request::Create {
                secret: secret.clone(),
                password: password.clone(),
                sk: sk.clone(),
            },
            Request::Authorise { auth_req } => Request::Authorise { auth_req: auth_req.clone() },
            Request::AuthedApps => Request::AuthedApps,
            Request::Revoke { app_id } => Request::Revoke { app_id: app_id.clone() },
        }
    }
}

impl View for RequestError<String> {
    type V = RequestError<Seq<char>>;

    open spec fn view(&self) -> RequestError<Seq<char>> {
        match self {
            RequestError::MissingGet => RequestError::MissingGet,
            RequestError::MissingCrLf => RequestError::MissingCrLf,
            RequestError::MalformedPath { reason } => RequestError::MalformedPath {
                reason: reason@,
            },
            RequestError::WrongArguments { verb } => RequestError::WrongArguments { verb: *verb },
            RequestError::UnknownAction { action } => RequestError::UnknownAction {
                action: action@,
            },
        }
    }
}

/// The outcome of reading a request, in texts as contracts speak of them.
pub open spec fn outcome(
    r: Result<Request<String>, RequestError<String>>,
) -> Result<Request<Seq<char>>, RequestError<Seq<char>>> {
    match r {
        Ok(request) => Ok(request@),
        Err(error) => Err(error@),
    }
}

// The names of the actions.

impl Verb {
    /// The name by which a client asks for the action.
    pub open spec fn text(self) -> Seq<char> {
        match self {
            Verb::LogIn => "login"@,
            Verb::LogOut => "logout"@,
            Verb::Create => "create"@,
            Verb::Authorise => "authorise"@,
            Verb::AuthedApps => "authed-apps"@,
            Verb::Revoke => "revoke"@,
        }
    }

    /// How many parts the path of a request for the action has: what stands before the first
    /// slash, the name of the action, and its arguments.
    pub open spec fn parts(self) -> nat {
        match self {
            Verb::LogIn => 4,
            Verb::LogOut => 2,
            Verb::Create => 5,
            Verb::Authorise => 3,
            Verb::AuthedApps => 2,
            Verb::Revoke => 3,
        }
    }

    /// The action that a name stands for.
    pub open spec fn of_name(text: Seq<char>) -> Option<Verb> {
        if text == "login"@ {
            Some(Verb::LogIn)
        } else if text == "logout"@ {
            Some(Verb::LogOut)
        } else if text == "create"@ {
            Some(Verb::Create)
        } else if text == "authorise"@ {
            Some(Verb::Authorise)
        } else if text == "authed-apps"@ {
            Some(Verb::AuthedApps)
        } else if text == "revoke"@ {
            Some(Verb::Revoke)
        } else {
            None
        }
    }

    /// The name by which a client asks for the action.
    pub fn name(self) -> (r: &'static str)
        ensures
            r@ == self.text(),
    {
        match self {
            Verb::LogIn => "login",
            Verb::LogOut => "logout",
            Verb::Create => "create",
            Verb::Authorise => "authorise",
            Verb::AuthedApps => "authed-apps",
            Verb::Revoke => "revoke",
        }
    }

    /// The action of that name, if there is one.
    pub fn from_name(text: &str) -> (r: Option<Verb>)
        ensures
            r == Verb::of_name(text@),
    {
        if same_text(text, "login") {
            Some(Verb::LogIn)
        } else if same_text(text, "logout") {
            Some(Verb::LogOut)
        } else if same_text(text, "create") {
            Some(Verb::Create)
        } else if same_text(text, "authorise") {
            Some(Verb::Authorise)
        } else if same_text(text, "authed-apps") {
            Some(Verb::AuthedApps)
        } else if same_text(text, "revoke") {
            Some(Verb::Revoke)
        } else {
            None
        }
    }

    /// How many parts the path of a request for the action has.
    pub fn path_parts(self) -> (n: usize)
        ensures
            n == self.parts(),
    {
        match self {
            Verb::LogIn => 4,
            Verb::LogOut => 2,
            Verb::Create => 5,
            Verb::Authorise => 3,
            Verb::AuthedApps => 2,
            Verb::Revoke => 3,
        }
    }
}

// The request line: `GET`, a space, the path, and, behind another space, anything; then carriage
// return and line feed.

/// The bytes of the ASCII characters that the request line is made of.
pub const LETTER_G: u8 = 71;

pub const LETTER_E: u8 = 69;

pub const LETTER_T: u8 = 84;

pub const SPACE: u8 = 32;

pub const CARRIAGE_RETURN: u8 = 13;

pub const LINE_FEED: u8 = 10;

/// Whether `x` starts with `GET` and a space.
pub open spec fn has_get(x: Seq<u8>) -> bool {
    x.len() >= 4 && x[0] == LETTER_G && x[1] == LETTER_E && x[2] == LETTER_T && x[3] == SPACE
}

/// Whether carriage return and line feed end `x`, behind the first four bytes.
pub open spec fn has_crlf(x: Seq<u8>) -> bool {
    x.len() >= 6 && x[x.len() - 2] == CARRIAGE_RETURN && x[x.len() - 1] == LINE_FEED
}

/// What stands before the first space.
pub open spec fn before_space(t: Seq<u8>) -> Seq<u8>
    decreases t.len(),
{
    if t.len() == 0 || t[0] == SPACE {
        Seq::<u8>::empty()
    } else {
        seq![t[0]] + before_space(t.drop_first())
    }
}

/// The bytes of the path in a request line.
pub open spec fn path_bytes(x: Seq<u8>) -> Seq<u8> {
    before_space(x.subrange(4, x.len() - 2))
}

/// What a path asks for, given what decoding it as UTF-8 gave.
pub open spec fn interpreted(
    path: Result<Seq<char>, Seq<char>>,
) -> Result<Request<Seq<char>>, RequestError<Seq<char>>> {
    match path {
        Err(reason) => Err(RequestError::MalformedPath { reason }),
        Ok(path) => {
            let parts = split_text(path, '/');
            match Verb::of_name(parts[1]) {
                None => Err(RequestError::UnknownAction { action: parts[1] }),
                Some(verb) => if parts.len() != verb.parts() {
                    Err(RequestError::WrongArguments { verb })
                } else {
                    Ok(
                        match verb {
                            Verb::LogIn => Request::LogIn { secret: parts[2], password: parts[3] },
                            Verb::LogOut => Request::LogOut,
                            Verb::Create => Request::Create {
                                secret: parts[2],
                                password: parts[3],
                                sk: parts[4],
                            },
                            Verb::Authorise => Request::Authorise { auth_req: parts[2] },
                            Verb::AuthedApps => Request::AuthedApps,
                            Verb::Revoke => Request::Revoke { app_id: parts[2] },
                        },
                    )
                },
            }
        },
    }
}

/// The decoded path of a request line, or the reason why it is not UTF-8.
pub open spec fn decoded(bytes: Seq<u8>) -> Result<Seq<char>, Seq<char>> {
    if valid_utf8(bytes) {
        Ok(decode_utf8(bytes))
    } else {
        Err(utf8_error_text(bytes))
    }
}

/// What a request asks for.
pub open spec fn parsed(x: Seq<u8>) -> Result<Request<Seq<char>>, RequestError<Seq<char>>> {
    if !has_get(x) {
        Err(RequestError::MissingGet)
    } else if !has_crlf(x) {
        Err(RequestError::MissingCrLf)
    } else {
        interpreted(decoded(path_bytes(x)))
    }
}

/// Whether the path of a well-formed request has a slash, behind which an action can stand.
pub open spec fn request_names_action(x: Seq<u8>) -> bool {
    has_get(x) && has_crlf(x) && valid_utf8(path_bytes(x)) ==> decode_utf8(
        path_bytes(x),
    ).contains('/')
}

/// The path ends where the first space stands.
pub(crate) proof fn lemma_before_space(t: Seq<u8>, end: int)
    requires
        0 <= end <= t.len(),
        forall|j: int| 0 <= j < end ==> t[j] != SPACE,
        end < t.len() ==> t[end] == SPACE,
    ensures
        before_space(t) == t.take(end),
    decreases end,
{
    if end == 0 {
        assert(t.take(0) =~= Seq::<u8>::empty());
    } else {
        let rest = t.drop_first();
        assert forall|j: int| 0 <= j < end - 1 implies rest[j] != SPACE by {
            assert(rest[j] == t[j + 1]);
        }
        lemma_before_space(rest, end - 1);
        assert(seq![t[0]] + rest.take(end - 1) =~= t.take(end));
    }
}

/// A text with a slash has at least two parts.
pub(crate) proof fn lemma_two_parts(path: Seq<char>)
    requires
        path.contains('/'),
    ensures
        split_text(path, '/').len() >= 2,
{
    law_split_then_join(path, '/');
    let parts = split_text(path, '/');
    if parts.len() == 1 {
        assert(!parts[0].contains('/'));
    }
}

/// The path of a request line, its bytes not yet decoded.
fn request_path(x: &[u8]) -> (path: &[u8])
    requires
        has_get(x@),
        has_crlf(x@),
    ensures
        path@ == path_bytes(x@),
{
    let target = slice_subrange(x, 4, x.len() - 2);
    let mut end: usize = 0;
    while end < target.len() && target[end] != SPACE
        invariant
            end <= target@.len(),
            forall|j: int| 0 <= j < end ==> target@[j] != SPACE,
        decreases target@.len() - end,
    {
        end += 1;
    }
    proof {
        lemma_before_space(target@, end as int);
    }
    let path = slice_subrange(target, 0, end);
    assert(path@ =~= target@.take(end as int));
    path
}

/// Whether `x` starts with `GET` and a space.
fn starts_with_get(x: &[u8]) -> (r: bool)
    ensures
        r == has_get(x@),
{
    x.len() >= 4 && x[0] == LETTER_G && x[1] == LETTER_E && x[2] == LETTER_T && x[3] == SPACE
}

/// Whether carriage return and line feed end `x`, behind the first four bytes.
fn ends_with_crlf(x: &[u8]) -> (r: bool)
    ensures
        r == has_crlf(x@),
{
    x.len() >= 6 && x[x.len() - 2] == CARRIAGE_RETURN && x[x.len() - 1] == LINE_FEED
}

/// Whether the path of a well-formed request has a slash, so that `process_get` can be asked what
/// the request is for.
pub fn names_action(x: &[u8]) -> (r: bool)
    ensures
        r == request_names_action(x@),
{
    if !starts_with_get(x) || !ends_with_crlf(x) {
        return true;
    }
    match from_utf8(request_path(x)) {
        Err(_) => true,
        Ok(path) => {
            for c in it: path.chars()
                invariant
                    it.seq() == path@,
                    path@ == decode_utf8(path_bytes(x@)),
                    forall|j: int| 0 <= j < it.index() ==> path@[j] != '/',
            {
                if c == '/' {
                    assert(path@[it.index() as int] == '/');
                    return true;
                }
            }
            assert(!path@.contains('/'));
            false
        },
    }
}

/// What a path asks for, given what decoding it as UTF-8 gave: the text, or the reason why it
/// cannot be decoded.
pub fn interpret(path: Result<&str, String>) -> (r: Result<Request<String>, RequestError<String>>)
    requires
        path matches Ok(text) ==> text@.contains('/'),
    ensures
        outcome(r) == interpreted(
            match path {
                Ok(text) => Ok(text@),
                Err(reason) => Err(reason@),
            },
        ),
{
    let text = match path {
        Err(reason) => return Err(RequestError::MalformedPath { reason }),
        Ok(text) => text,
    };
    let parts = split(text, '/');
    proof {
        lemma_two_parts(text@);
        assert(forall|i: int| 0 <= i < parts@.len() ==> texts(parts@)[i] == (#[trigger] parts@[i])@);
    }
    let verb = match Verb::from_name(parts[1].as_str()) {
        None => return Err(RequestError::UnknownAction { action: parts[1].clone() }),
        Some(verb) => verb,
    };
    if parts.len() != verb.path_parts() {
        return Err(RequestError::WrongArguments { verb });
    }
    Ok(
        match verb {
            Verb::LogIn => Request::LogIn {
                secret: parts[2].clone(),
                password: parts[3].clone(),
            },
            Verb::LogOut => Request::LogOut,
            Verb::Create => Request::Create {
                secret: parts[2].clone(),
                password: parts[3].clone(),
                sk: parts[4].clone(),
            },
            Verb::Authorise => Request::Authorise { auth_req: parts[2].clone() },
            Verb::AuthedApps => Request::AuthedApps,
            Verb::Revoke => Request::Revoke { app_id: parts[2].clone() },
        },
    )
}

/// What a request asks for.
pub fn process_get(x: &[u8]) -> (r: Result<Request<String>, RequestError<String>>)
    requires
        request_names_action(x@),
    ensures
        outcome(r) == parsed(x@),
{
    if !starts_with_get(x) {
        return Err(RequestError::MissingGet);
    }
    if !ends_with_crlf(x) {
        return Err(RequestError::MissingCrLf);
    }
    interpret(from_utf8(request_path(x)))
}

// How a request that cannot be carried out is reported.

impl RequestError<Seq<char>> {
    /// The messages of the error and its cause.
    pub open spec fn chain(self) -> Seq<Seq<char>> {
        match self {
            RequestError::MissingGet => seq!["missing GET"@],
            RequestError::MissingCrLf => seq!["missing \\r\\n"@],
            RequestError::MalformedPath { reason } => seq!["path is malformed UTF-8"@, reason],
            RequestError::WrongArguments { verb } => seq![
                "Incorrect number of arguments for '"@ + verb.text() + "' action"@,
            ],
            RequestError::UnknownAction { .. } => seq!["Action not supported or unknown"@],
        }
    }
}

impl ErrorExt for RequestError<String> {
    fn pretty(&self) -> (p: PrettyErr)
        ensures
            p@ == self@.chain(),
    {
        match self {
            RequestError::MissingGet => PrettyErr::new("missing GET".to_string()),
            RequestError::MissingCrLf => PrettyErr::new("missing \\r\\n".to_string()),
            RequestError::MalformedPath { reason } => {
                let cause = PrettyErr::new(reason.clone());
                let p = cause.context("path is malformed UTF-8".to_string());
                assert(p@ =~= self@.chain());
                p
            },
            RequestError::WrongArguments { verb } => {
                let mut message = "Incorrect number of arguments for '".to_string();
                message.append(verb.name());
                message.append("' action");
                PrettyErr::new(message)
            },
            RequestError::UnknownAction { .. } => PrettyErr::new(
                "Action not supported or unknown".to_string(),
            ),
        }
    }
}

} // verus!
