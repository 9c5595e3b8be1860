use crate::request::{
    before_space, decoded, has_crlf, has_get, interpreted, lemma_before_space, lemma_two_parts,
    names_action, outcome, parsed, path_bytes, process_get, request_names_action, Request,
    RequestError, Verb,
};
use crate::text::{
    join_text, law_join_then_split, law_split_then_join, lemma_split_prepend, lemma_split_single,
    split_text, utf8_error_text,
};
use vstd::prelude::*;
use vstd::utf8::*;

verus! {

/// The action that a request is for.
pub open spec fn verb_of(request: Request<Seq<char>>) -> Verb {
    match request {
        Request::LogIn { .. } => Verb::LogIn,
        Request::LogOut => Verb::LogOut,
        Request::Create { .. } => Verb::Create,
        Request::Authorise { .. } => Verb::Authorise,
        Request::AuthedApps => Verb::AuthedApps,
        Request::Revoke { .. } => Verb::Revoke,
    }
}

/// The arguments of a request, in the order in which a client writes them.
pub open spec fn arguments(request: Request<Seq<char>>) -> Seq<Seq<char>> {
    match request {
        Request::LogIn { secret, password } => seq![secret, password],
        Request::LogOut => seq![],
        Request::Create { secret, password, sk } => seq![secret, password, sk],
        Request::Authorise { auth_req } => seq![auth_req],
        Request::AuthedApps => seq![],
        Request::Revoke { app_id } => seq![app_id],
    }
}

/// Whether a text can stand between two slashes of a path.
pub open spec fn plain(text: Seq<char>) -> bool {
    !text.contains('/') && !text.contains(' ')
}

/// The path by which a client makes a request: `prefix`, the name of the action and its arguments,
/// with slashes between them.
pub open spec fn path_of(prefix: Seq<char>, request: Request<Seq<char>>) -> Seq<char> {
    join_text(seq![prefix, verb_of(request).text()] + arguments(request), seq!['/'])
}

/// A request line with the bytes `path`, and with `rest` between them and the end of the line: `GET`
/// and a space stand before, carriage return and line feed behind.
pub open spec fn byte_line(path: Seq<u8>, rest: Seq<u8>) -> Seq<u8> {
    seq![71u8, 69u8, 84u8, 32u8] + path + rest + seq![13u8, 10u8]
}

/// A request line with `path`, and with `rest` between the path and the end of the line.
pub open spec fn request_line(path: Seq<char>, rest: Seq<u8>) -> Seq<u8> {
    byte_line(encode_utf8(path), rest)
}

/// Whether `rest` can stand behind a path: nothing, or what a space sets apart.
pub open spec fn set_apart(rest: Seq<u8>) -> bool {
    rest.len() == 0 || rest[0] == 32
}

/// Only a space is encoded with the byte of a space.
proof fn lemma_no_space_byte(text: Seq<char>)
    requires
        !text.contains(' '),
    ensures
        forall|i: int| 0 <= i < encode_utf8(text).len() ==> encode_utf8(text)[i] != 32,
    decreases text.len(),
{
    if text.len() > 0 {
        let rest = text.drop_first();
        assert(!rest.contains(' ')) by {
            if rest.contains(' ') {
                let k = choose|k: int| 0 <= k < rest.len() && rest[k] == ' ';
                assert(text[k + 1] == ' ');
            }
        }
        lemma_no_space_byte(rest);
        assert(text[0] != ' ');
        let c = text[0] as u32;
        char_is_scalar(text[0]);
        char_u32_cast(text[0], c);
        assert(c != 32) by {
            if c == 32 {
                assert(text[0] == c as char);
            }
        }
        assert(c != 32 && c <= 0x7f ==> (c & 0x7f) as u8 != 32) by (bit_vector);
        assert((0xC0 | ((c >> 6) & 0x1F) as u8) >= 0x80u8) by (bit_vector);
        assert((0xE0 | ((c >> 12) & 0x0F) as u8) >= 0x80u8) by (bit_vector);
        assert((0xF0 | ((c >> 18) & 0x7) as u8) >= 0x80u8) by (bit_vector);
        assert((0x80 | (c & 0x3F) as u8) >= 0x80u8) by (bit_vector);
        assert((0x80 | ((c >> 6) & 0x3F) as u8) >= 0x80u8) by (bit_vector);
        assert((0x80 | ((c >> 12) & 0x3F) as u8) >= 0x80u8) by (bit_vector);
        let first = encode_scalar(c);
        let whole = encode_utf8(text);
        assert(whole == first + encode_utf8(rest));
        assert forall|i: int| 0 <= i < whole.len() implies whole[i] != 32 by {
            if i < first.len() {
                assert(whole[i] == first[i]);
            } else {
                assert(whole[i] == encode_utf8(rest)[i - first.len()]);
            }
        }
    }
}

/// A join holds a character only if a part or the separator does.
proof fn lemma_join_lacks(parts: Seq<Seq<char>>, sep: Seq<char>, c: char)
    requires
        !sep.contains(c),
        forall|i: int| 0 <= i < parts.len() ==> !(#[trigger] parts[i]).contains(c),
    ensures
        !join_text(parts, sep).contains(c),
    decreases parts.len(),
{
    if parts.len() >= 2 {
        let front = parts.drop_last();
        assert forall|i: int| 0 <= i < front.len() implies !(#[trigger] front[i]).contains(c) by {
            assert(front[i] == parts[i]);
        }
        lemma_join_lacks(front, sep, c);
        let head = join_text(front, sep);
        let whole = head + sep + parts.last();
        if whole.contains(c) {
            let k = choose|k: int| 0 <= k < whole.len() && whole[k] == c;
            if k < head.len() {
                assert(head[k] == c);
            } else if k < head.len() + sep.len() {
                assert(sep[k - head.len()] == c);
            } else {
                assert(parts.last()[k - head.len() - sep.len()] == c);
                assert(parts[parts.len() - 1].contains(c));
            }
        }
    }
}

/// A join holds the characters of each part.
proof fn lemma_join_holds(parts: Seq<Seq<char>>, sep: Seq<char>, i: int, c: char)
    requires
        0 <= i < parts.len(),
        parts[i].contains(c),
    ensures
        join_text(parts, sep).contains(c),
    decreases parts.len(),
{
    if parts.len() >= 2 {
        let front = parts.drop_last();
        let head = join_text(front, sep);
        let whole = head + sep + parts.last();
        if i == parts.len() - 1 {
            let k = choose|k: int| 0 <= k < parts.last().len() && parts.last()[k] == c;
            assert(whole[head.len() + sep.len() + k] == c);
        } else {
            assert(front[i] == parts[i]);
            lemma_join_holds(front, sep, i, c);
            let k = choose|k: int| 0 <= k < head.len() && head[k] == c;
            assert(whole[k] == c);
        }
    }
}

/// The names of the actions hold neither slashes nor spaces, and each stands for its own action.
proof fn lemma_names(verb: Verb)
    ensures
        plain(verb.text()),
        Verb::of_name(verb.text()) == Some(verb),
{
    reveal_strlit("login");
    reveal_strlit("logout");
    reveal_strlit("create");
    reveal_strlit("authorise");
    reveal_strlit("authed-apps");
    reveal_strlit("revoke");
    assert("login"@.len() == 5 && "logout"@.len() == 6 && "create"@.len() == 6
        && "authorise"@.len() == 9 && "authed-apps"@.len() == 11 && "revoke"@.len() == 6);
    assert("logout"@[0] == 'l' && "create"@[0] == 'c' && "revoke"@[0] == 'r');
}

/// A request line holds the bytes that a client put there, whatever stands behind a space.
proof fn lemma_line_bytes(path: Seq<u8>, rest: Seq<u8>)
    requires
        forall|i: int| 0 <= i < path.len() ==> path[i] != 32,
        set_apart(rest),
    ensures
        has_get(byte_line(path, rest)),
        has_crlf(byte_line(path, rest)),
        path_bytes(byte_line(path, rest)) == path,
{
    let line = byte_line(path, rest);
    let target = line.subrange(4, line.len() - 2);
    assert(target =~= path + rest);
    lemma_before_space(target, path.len() as int);
    assert(target.take(path.len() as int) =~= path);
}

/// A request line holds the path that a client put there, whatever stands behind a space.
proof fn lemma_line_path(path: Seq<char>, rest: Seq<u8>)
    requires
        !path.contains(' '),
        set_apart(rest),
    ensures
        has_get(request_line(path, rest)),
        has_crlf(request_line(path, rest)),
        path_bytes(request_line(path, rest)) == encode_utf8(path),
        decoded(path_bytes(request_line(path, rest))) == Ok::<Seq<char>, Seq<char>>(path),
{
    lemma_no_space_byte(path);
    lemma_line_bytes(encode_utf8(path), rest);
    encode_utf8_valid_utf8(path);
    encode_utf8_decode_utf8(path);
}

/// What a client asks for is what the daemon understands: a request line with the name of an action
/// and its arguments is read as that request, if no argument holds a slash or a space. What stands
/// before the first slash does not matter, nor what stands behind the first space.
pub proof fn law_request_understood(
    prefix: Seq<char>,
    request: Request<Seq<char>>,
    rest: Seq<u8>,
)
    requires
        plain(prefix),
        forall|i: int| 0 <= i < arguments(request).len() ==> plain(#[trigger] arguments(request)[i]),
        set_apart(rest),
    ensures
        request_names_action(request_line(path_of(prefix, request), rest)),
        parsed(request_line(path_of(prefix, request), rest)) == Ok::<
            Request<Seq<char>>,
            RequestError<Seq<char>>,
        >(request),
{
    let verb = verb_of(request);
    let parts = seq![prefix, verb.text()] + arguments(request);
    let path = path_of(prefix, request);
    lemma_names(verb);
    assert forall|i: int| 0 <= i < parts.len() implies plain(#[trigger] parts[i]) by {
        if i >= 2 {
            assert(parts[i] == arguments(request)[i - 2]);
        }
    }
    law_join_then_split(parts, '/');
    assert(!seq!['/'].contains(' '));
    lemma_join_lacks(parts, seq!['/'], ' ');
    lemma_line_path(path, rest);
    assert(path.contains('/')) by {
        if !path.contains('/') {
            lemma_split_single(path, '/');
        }
    }
}

/// What stands behind the first space never matters: whatever the path, and whether the request is
/// understood or refused, and for which reason, it is the same with another rest of the line.
pub proof fn law_rest_ignored(path: Seq<u8>, rest: Seq<u8>, other: Seq<u8>)
    requires
        forall|i: int| 0 <= i < path.len() ==> path[i] != 32,
        set_apart(rest),
        set_apart(other),
    ensures
        request_names_action(byte_line(path, rest)) == request_names_action(byte_line(path, other)),
        parsed(byte_line(path, rest)) == parsed(byte_line(path, other)),
{
    lemma_line_bytes(path, rest);
    lemma_line_bytes(path, other);
}

/// What stands before the first slash does not matter either: whether the request is understood or
/// refused, and for which reason, it is the same with another text there, and another rest of the
/// line. Only where what stands behind the slash is not UTF-8, the request is refused as malformed
/// for a reason that may tell where in the path.
pub proof fn law_surroundings_ignored(
    prefix: Seq<char>,
    other_prefix: Seq<char>,
    tail: Seq<u8>,
    rest: Seq<u8>,
    other_rest: Seq<u8>,
)
    requires
        plain(prefix),
        plain(other_prefix),
        forall|i: int| 0 <= i < tail.len() ==> tail[i] != 32,
        set_apart(rest),
        set_apart(other_rest),
    ensures
        ({
            let line = byte_line(encode_utf8(prefix.push('/')) + tail, rest);
            let other = byte_line(encode_utf8(other_prefix.push('/')) + tail, other_rest);
            &&& request_names_action(line)
            &&& request_names_action(other)
            &&& valid_utf8(tail) ==> parsed(line) == parsed(other)
            &&& !valid_utf8(tail) ==> {
                &&& parsed(line) matches Err(RequestError::MalformedPath { .. })
                &&& parsed(other) matches Err(RequestError::MalformedPath { .. })
            }
        }),
{
    lemma_behind_slash(prefix, tail, rest);
    lemma_behind_slash(other_prefix, tail, other_rest);
    if valid_utf8(tail) {
        let t = decode_utf8(tail);
        law_split_then_join(t, '/');
        let parts = seq![prefix] + split_text(t, '/');
        let others = seq![other_prefix] + split_text(t, '/');
        assert forall|i: int| 1 <= i < parts.len() implies parts[i] == others[i] by {}
    }
}

/// The path of a request line with a text, a slash and other bytes.
proof fn lemma_behind_slash(prefix: Seq<char>, tail: Seq<u8>, rest: Seq<u8>)
    requires
        plain(prefix),
        forall|i: int| 0 <= i < tail.len() ==> tail[i] != 32,
        set_apart(rest),
    ensures
        ({
            let bytes = encode_utf8(prefix.push('/')) + tail;
            let line = byte_line(bytes, rest);
            &&& has_get(line)
            &&& has_crlf(line)
            &&& path_bytes(line) == bytes
            &&& valid_utf8(bytes) == valid_utf8(tail)
            &&& valid_utf8(tail) ==> {
                &&& decode_utf8(bytes) == prefix.push('/') + decode_utf8(tail)
                &&& decode_utf8(bytes).contains('/')
                &&& split_text(decode_utf8(bytes), '/') == seq![prefix] + split_text(
                    decode_utf8(tail),
                    '/',
                )
            }
        }),
{
    let head = prefix.push('/');
    let front = encode_utf8(head);
    let bytes = front + tail;
    let n = front.len() as int;
    assert(!head.contains(' ')) by {
        if head.contains(' ') {
            let k = choose|k: int| 0 <= k < head.len() && head[k] == ' ';
            assert(prefix[k] == ' ');
        }
    }
    lemma_no_space_byte(head);
    lemma_line_bytes(bytes, rest);
    encode_utf8_valid_utf8(head);
    encode_utf8_decode_utf8(head);
    assert(bytes.subrange(0, n) =~= front);
    assert(bytes.subrange(n, bytes.len() as int) =~= tail);
    if !valid_utf8(tail) {
        partial_valid_partial_invalid_utf8(bytes, n);
    } else {
        valid_utf8_concat(front, tail);
        if tail.len() == 0 {
            is_char_boundary_start_end_of_seq(bytes);
        } else {
            assert(bytes[n] == tail[0]);
            is_char_boundary_iff_not_is_continuation_byte(bytes, n);
        }
        decode_utf8_split(bytes, n);
        lemma_split_prepend(prefix, '/', decode_utf8(tail));
        assert(decode_utf8(bytes)[prefix.len() as int] == '/');
    }
}

/// What stands before the first space holds no space.
proof fn lemma_before_space_lacks(t: Seq<u8>)
    ensures
        forall|i: int| 0 <= i < before_space(t).len() ==> before_space(t)[i] != 32,
    decreases t.len(),
{
    if t.len() > 0 && t[0] != 32 {
        let rest = t.drop_first();
        lemma_before_space_lacks(rest);
        let whole = before_space(t);
        assert forall|i: int| 0 <= i < whole.len() implies whole[i] != 32 by {
            if i > 0 {
                assert(whole[i] == before_space(rest)[i - 1]);
            }
        }
    }
}

/// A space is encoded with the byte of a space.
proof fn lemma_space_byte(text: Seq<char>, k: int)
    requires
        0 <= k < text.len(),
        text[k] == ' ',
    ensures
        exists|i: int| 0 <= i < encode_utf8(text).len() && encode_utf8(text)[i] == 32,
    decreases text.len(),
{
    let whole = encode_utf8(text);
    let first = encode_scalar(text[0] as u32);
    let rest = text.drop_first();
    assert(whole == first + encode_utf8(rest));
    if k == 0 {
        assert((32u32 & 0x7f) as u8 == 32u8) by (bit_vector);
        assert(first =~= seq![32u8]);
        assert(whole[0] == 32);
    } else {
        assert(rest[k - 1] == ' ');
        lemma_space_byte(rest, k - 1);
        let i = choose|i: int| 0 <= i < encode_utf8(rest).len() && encode_utf8(rest)[i] == 32;
        assert(whole[first.len() + i] == 32);
    }
}

/// The daemon understands nothing else: a request line that it reads as a request holds the path by
/// which a client makes that request, and no argument of the request holds a slash or a space.
pub proof fn law_only_requests_understood(x: Seq<u8>, request: Request<Seq<char>>)
    requires
        request_names_action(x),
        parsed(x) == Ok::<Request<Seq<char>>, RequestError<Seq<char>>>(request),
    ensures
        has_get(x),
        has_crlf(x),
        exists|prefix: Seq<char>|
            plain(prefix) && decoded(path_bytes(x)) == Ok::<Seq<char>, Seq<char>>(
                #[trigger] path_of(prefix, request),
            ),
        forall|i: int| 0 <= i < arguments(request).len() ==> plain(#[trigger] arguments(request)[i]),
{
    let bytes = path_bytes(x);
    let path = decode_utf8(bytes);
    let parts = split_text(path, '/');
    let verb = verb_of(request);
    law_split_then_join(path, '/');
    lemma_two_parts(path);
    assert(Verb::of_name(parts[1]) == Some(verb));
    assert(parts[1] == verb.text());
    assert(parts =~= seq![parts[0], verb.text()] + arguments(request));
    assert(path == path_of(parts[0], request));
    lemma_before_space_lacks(x.subrange(4, x.len() - 2));
    decode_utf8_encode_utf8(bytes);
    assert(!path.contains(' ')) by {
        if path.contains(' ') {
            let k = choose|k: int| 0 <= k < path.len() && path[k] == ' ';
            lemma_space_byte(path, k);
        }
    }
    assert forall|i: int| 0 <= i < parts.len() implies plain(#[trigger] parts[i]) by {
        if parts[i].contains(' ') {
            lemma_join_holds(parts, seq!['/'], i, ' ');
        }
    }
    assert forall|i: int| 0 <= i < arguments(request).len() implies plain(
        #[trigger] arguments(request)[i],
    ) by {
        assert(arguments(request)[i] == parts[i + 2]);
    }
    assert(plain(parts[0]));
}

// How requests are spelled.

/// A request that is understood.
pub open spec fn understood(request: Request<Seq<char>>) -> Result<
    Request<Seq<char>>,
    RequestError<Seq<char>>,
> {
    Ok(request)
}

/// A request that is refused.
pub open spec fn refused(error: RequestError<Seq<char>>) -> Result<
    Request<Seq<char>>,
    RequestError<Seq<char>>,
> {
    Err(error)
}

/// The names of the actions, and how many parts their paths have.
pub proof fn law_names_spelled()
    ensures
        Verb::LogIn.text() == "login"@,
        Verb::LogOut.text() == "logout"@,
        Verb::Create.text() == "create"@,
        Verb::Authorise.text() == "authorise"@,
        Verb::AuthedApps.text() == "authed-apps"@,
        Verb::Revoke.text() == "revoke"@,
        forall|verb: Verb| Verb::of_name(#[trigger] verb.text()) == Some(verb),
        forall|text: Seq<char>| (#[trigger] Verb::of_name(text)) matches Some(verb) ==> verb.text() == text,
        Verb::LogIn.parts() == 4,
        Verb::LogOut.parts() == 2,
        Verb::Create.parts() == 5,
        Verb::Authorise.parts() == 3,
        Verb::AuthedApps.parts() == 2,
        Verb::Revoke.parts() == 3,
{
    assert forall|verb: Verb| Verb::of_name(#[trigger] verb.text()) == Some(verb) by {
        lemma_names(verb);
    }
}

/// Each action is asked for by a path of its own. The first argument of a log-in is the secret, the
/// second the password; the first argument of a creation is the secret, the second the password,
/// and the third the key.
pub proof fn law_paths_spelled(prefix: Seq<char>, a: Seq<char>, b: Seq<char>, c: Seq<char>)
    requires
        !prefix.contains('/'),
        !a.contains('/'),
        !b.contains('/'),
        !c.contains('/'),
    ensures
        interpreted(Ok(prefix + "/login/"@ + a + "/"@ + b)) == understood(
            Request::LogIn { secret: a, password: b },
        ),
        interpreted(Ok(prefix + "/logout"@)) == understood(Request::LogOut),
        interpreted(Ok(prefix + "/create/"@ + a + "/"@ + b + "/"@ + c)) == understood(
            Request::Create { secret: a, password: b, sk: c },
        ),
        interpreted(Ok(prefix + "/authorise/"@ + a)) == understood(
            Request::Authorise { auth_req: a },
        ),
        interpreted(Ok(prefix + "/authed-apps"@)) == understood(Request::AuthedApps),
        interpreted(Ok(prefix + "/revoke/"@ + a)) == understood(
            Request::Revoke { app_id: a },
        ),
{
    reveal_strlit("/");
    lemma_names(Verb::LogIn);
    lemma_names(Verb::LogOut);
    lemma_names(Verb::Create);
    lemma_names(Verb::Authorise);
    lemma_names(Verb::AuthedApps);
    lemma_names(Verb::Revoke);
    assert(prefix + "/login/"@ + a + "/"@ + b =~= prefix.push('/') + ("login"@.push('/') + (a.push(
        '/',
    ) + b))) by {
        reveal_strlit("login");
        reveal_strlit("/login/");
    }
    lemma_split_prepend(prefix, '/', "login"@.push('/') + (a.push('/') + b));
    lemma_split_prepend("login"@, '/', a.push('/') + b);
    lemma_split_prepend(a, '/', b);
    lemma_split_single(b, '/');
    assert(prefix + "/logout"@ =~= prefix.push('/') + "logout"@) by {
        reveal_strlit("logout");
        reveal_strlit("/logout");
    }
    lemma_split_prepend(prefix, '/', "logout"@);
    lemma_split_single("logout"@, '/');
    assert(prefix + "/create/"@ + a + "/"@ + b + "/"@ + c =~= prefix.push('/') + ("create"@.push('/')
        + (a.push('/') + (b.push('/') + c)))) by {
        reveal_strlit("create");
        reveal_strlit("/create/");
    }
    lemma_split_prepend(prefix, '/', "create"@.push('/') + (a.push('/') + (b.push('/') + c)));
    lemma_split_prepend("create"@, '/', a.push('/') + (b.push('/') + c));
    lemma_split_prepend(a, '/', b.push('/') + c);
    lemma_split_prepend(b, '/', c);
    lemma_split_single(c, '/');
    assert(prefix + "/authorise/"@ + a =~= prefix.push('/') + ("authorise"@.push('/') + a)) by {
        reveal_strlit("authorise");
        reveal_strlit("/authorise/");
    }
    lemma_split_prepend(prefix, '/', "authorise"@.push('/') + a);
    lemma_split_prepend("authorise"@, '/', a);
    lemma_split_single(a, '/');
    assert(prefix + "/authed-apps"@ =~= prefix.push('/') + "authed-apps"@) by {
        reveal_strlit("authed-apps");
        reveal_strlit("/authed-apps");
    }
    lemma_split_prepend(prefix, '/', "authed-apps"@);
    lemma_split_single("authed-apps"@, '/');
    assert(prefix + "/revoke/"@ + a =~= prefix.push('/') + ("revoke"@.push('/') + a)) by {
        reveal_strlit("revoke");
        reveal_strlit("/revoke/");
    }
    lemma_split_prepend(prefix, '/', "revoke"@.push('/') + a);
    lemma_split_prepend("revoke"@, '/', a);
}

/// How many slashes a text holds.
pub open spec fn slashes(text: Seq<char>) -> nat {
    text.filter(|c: char| c == '/').len()
}

/// A text has one part more than it has slashes.
proof fn lemma_slashes(text: Seq<char>)
    ensures
        split_text(text, '/').len() == slashes(text) + 1,
    decreases text.len(),
{
    reveal(Seq::filter);
    if text.len() > 0 {
        lemma_slashes(text.drop_last());
    }
}

/// The parts of a path with a prefix, a slash, a name, and arguments behind further slashes.
proof fn lemma_named_parts(prefix: Seq<char>, name: Seq<char>, tail: Seq<char>)
    requires
        !prefix.contains('/'),
        !name.contains('/'),
        tail.len() == 0 || tail[0] == '/',
    ensures
        split_text(prefix + "/"@ + name + tail, '/').len() == slashes(tail) + 2,
        split_text(prefix + "/"@ + name + tail, '/')[1] == name,
{
    reveal_strlit("/");
    let path = prefix + "/"@ + name + tail;
    assert(path =~= prefix.push('/') + (name + tail));
    lemma_split_prepend(prefix, '/', name + tail);
    if tail.len() == 0 {
        assert(name + tail =~= name);
        lemma_split_single(name, '/');
        reveal(Seq::filter);
        assert(slashes(tail) == 0);
    } else {
        let rest = tail.drop_first();
        assert(name + tail =~= name.push('/') + rest);
        assert(tail =~= Seq::<char>::empty().push('/') + rest);
        lemma_split_prepend(name, '/', rest);
        lemma_split_prepend(Seq::<char>::empty(), '/', rest);
        lemma_slashes(tail);
    }
}

/// No other path is understood. A path with the name of an action and another number of arguments
/// behind it is refused for this number, and any other name behind the first slash is refused as one
/// that is not known.
pub proof fn law_other_paths_refused(prefix: Seq<char>, name: Seq<char>, tail: Seq<char>)
    requires
        !prefix.contains('/'),
        !name.contains('/'),
        tail.len() == 0 || tail[0] == '/',
    ensures
        ({
            let read = interpreted(Ok(prefix + "/"@ + name + tail));
            let n = slashes(tail);
            &&& name == "login"@ ==> if n == 2 {
                read is Ok
            } else {
                read == refused(RequestError::WrongArguments { verb: Verb::LogIn })
            }
            &&& name == "logout"@ ==> if n == 0 {
                read is Ok
            } else {
                read == refused(RequestError::WrongArguments { verb: Verb::LogOut })
            }
            &&& name == "create"@ ==> if n == 3 {
                read is Ok
            } else {
                read == refused(RequestError::WrongArguments { verb: Verb::Create })
            }
            &&& name == "authorise"@ ==> if n == 1 {
                read is Ok
            } else {
                read == refused(RequestError::WrongArguments { verb: Verb::Authorise })
            }
            &&& name == "authed-apps"@ ==> if n == 0 {
                read is Ok
            } else {
                read == refused(RequestError::WrongArguments { verb: Verb::AuthedApps })
            }
            &&& name == "revoke"@ ==> if n == 1 {
                read is Ok
            } else {
                read == refused(RequestError::WrongArguments { verb: Verb::Revoke })
            }
            &&& name != "login"@ && name != "logout"@ && name != "create"@ && name != "authorise"@
                && name != "authed-apps"@ && name != "revoke"@ ==> read == refused(
                RequestError::UnknownAction { action: name },
            )
        }),
{
    lemma_named_parts(prefix, name, tail);
    lemma_names(Verb::LogIn);
    lemma_names(Verb::LogOut);
    lemma_names(Verb::Create);
    lemma_names(Verb::Authorise);
    lemma_names(Verb::AuthedApps);
    lemma_names(Verb::Revoke);
}

/// The path of a request line ends where the first space stands, and is read as UTF-8. Where it is
/// none, the request is refused for the reason that decoding gave; where it has no slash, there is
/// nothing that the request can be taken for.
pub proof fn law_line_read(path: Seq<u8>, rest: Seq<u8>)
    requires
        forall|i: int| 0 <= i < path.len() ==> path[i] != 32,
        set_apart(rest),
    ensures
        parsed(byte_line(path, rest)) == (if valid_utf8(path) {
            interpreted(Ok(decode_utf8(path)))
        } else {
            Err(RequestError::MalformedPath { reason: utf8_error_text(path) })
        }),
        request_names_action(byte_line(path, rest)) <==> (valid_utf8(path) ==> decode_utf8(
            path,
        ).contains('/')),
{
    lemma_line_bytes(path, rest);
}

/// A request must start with `GET` and a space, and end in carriage return and line feed behind
/// that; the first is asked first.
pub proof fn law_line_ends_required(x: Seq<u8>, y: Seq<u8>)
    ensures
        !seq![71u8, 69u8, 84u8, 32u8].is_prefix_of(x) ==> {
            &&& request_names_action(x)
            &&& parsed(x) == refused(RequestError::MissingGet)
        },
        !seq![13u8, 10u8].is_suffix_of(y) ==> {
            &&& request_names_action(seq![71u8, 69u8, 84u8, 32u8] + y)
            &&& parsed(seq![71u8, 69u8, 84u8, 32u8] + y) == refused(RequestError::MissingCrLf)
        },
{
    let get = seq![71u8, 69u8, 84u8, 32u8];
    if has_get(x) {
        assert(x.subrange(0, 4) =~= get);
    }
    let line = get + y;
    if has_crlf(line) {
        assert(y[y.len() - 2] == line[line.len() - 2]);
        assert(y[y.len() - 1] == line[line.len() - 1]);
        assert(y.subrange(y.len() - 2, y.len() as int) =~= seq![13u8, 10u8]);
    }
}

/// The views of requests and of their errors keep each text in its place.
pub proof fn law_request_views(
    request: Request<String>,
    error: RequestError<String>,
    r: Result<Request<String>, RequestError<String>>,
)
    ensures
        request@ == (match request {
            Request::LogIn { secret, password } => Request::LogIn {
                secret: secret@,
                password: password@,
            },
            Request::LogOut => Request::LogOut,
            Request::Create { secret, password, sk } => Request::Create {
                secret: secret@,
                password: password@,
                sk: sk@,
            },
            Request::Authorise { auth_req } => Request::Authorise { auth_req: auth_req@ },
            Request::AuthedApps => Request::AuthedApps,
            Request::Revoke { app_id } => Request::Revoke { app_id: app_id@ },
        }),
        error@ == (match error {
            RequestError::MissingGet => RequestError::MissingGet,
            RequestError::MissingCrLf => RequestError::MissingCrLf,
            RequestError::MalformedPath { reason } => RequestError::MalformedPath {
                reason: reason@,
            },
            RequestError::WrongArguments { verb } => RequestError::WrongArguments { verb },
            RequestError::UnknownAction { action } => RequestError::UnknownAction {
                action: action@,
            },
        }),
        r matches Ok(request) ==> outcome(r) == understood(request@),
        r matches Err(error) ==> outcome(r) == refused(error@),
{
}

/// A request is read as told.
pub proof fn law_request_read(x: &[u8], r: Result<Request<String>, RequestError<String>>)
    requires
        request_names_action(x@),
        call_ensures(process_get, (x,), r),
    ensures
        outcome(r) == parsed(x@),
{
}

/// A request whose path has no slash is told apart from all others.
pub proof fn law_slash_looked_for(x: &[u8], named: bool)
    requires
        call_ensures(names_action, (x,), named),
    ensures
        named == request_names_action(x@),
{
}

} // verus!
