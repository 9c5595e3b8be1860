use vstd::prelude::*;
use vstd::slice::slice_to_vec;
use vstd::utf8::*;

verus! {

// What std gives.

/// `String::push` puts one character behind the text.
pub assume_specification[ String::push ](s: &mut String, c: char)
    ensures
        final(s)@ == old(s)@.push(c),
;

/// The message with which `std::str::from_utf8` reports that `bytes` are not UTF-8.
pub uninterp spec fn utf8_error_text(bytes: Seq<u8>) -> Seq<char>;

/// `std::str::from_utf8` takes exactly the well-formed UTF-8 sequences, and gives the text that
/// they encode. Of any other sequence it gives an error, whose message is claimed to depend on the
/// bytes alone.
#[verifier::external_body]
pub(crate) fn from_utf8(bytes: &[u8]) -> (r: Result<&str, String>)
    ensures
        match r {
            Ok(s) => valid_utf8(bytes@) && s@ == decode_utf8(bytes@),
            Err(reason) => !valid_utf8(bytes@) && reason@ == utf8_error_text(bytes@),
        },
{
    std::str::from_utf8(bytes).map_err(|e| e.to_string())
}

/// The text that `String::from_utf8_lossy` makes of `bytes`.
pub uninterp spec fn lossy_text(bytes: Seq<u8>) -> Seq<char>;

/// `String::from_utf8_lossy` decodes well-formed UTF-8 as it stands, and puts replacement
/// characters in place of what is not well formed.
#[verifier::external_body]
pub(crate) fn from_utf8_lossy(bytes: &[u8]) -> (r: String)
    ensures
        r@ == lossy_text(bytes@),
        valid_utf8(bytes@) ==> r@ == decode_utf8(bytes@),
{
    String::from_utf8_lossy(bytes).into_owned()
}

// Comparing and splitting.

/// Whether two texts are the same.
pub fn same_text(a: &str, b: &str) -> (r: bool)
    ensures
        r == (a@ == b@),
{
    let x = a.as_bytes();
    let y = b.as_bytes();
    proof {
        encode_utf8_decode_utf8(a@);
        encode_utf8_decode_utf8(b@);
    }
    if x.len() != y.len() {
        return false;
    }
    for i in 0..x.len()
        invariant
            x@ == encode_utf8(a@),
            y@ == encode_utf8(b@),
            x@.len() == y@.len(),
            forall|j: int| 0 <= j < i ==> x@[j] == y@[j],
    {
        if x[i] != y[i] {
            return false;
        }
    }
    assert(x@ =~= y@);
    true
}

/// One text behind the other.
pub fn appended(a: &str, b: &str) -> (r: String)
    ensures
        r@ == a@ + b@,
{
    let mut r = a.to_string();
    r.append(b);
    r
}

/// The bytes of a text.
pub fn to_bytes(text: &str) -> (bytes: Vec<u8>)
    ensures
        bytes@ == encode_utf8(text@),
{
    slice_to_vec(text.as_bytes())
}

/// The parts of `s` between the separators, empty parts among them.
pub open spec fn split_text(s: Seq<char>, sep: char) -> Seq<Seq<char>>
    decreases s.len(),
{
    if s.len() == 0 {
        seq![Seq::<char>::empty()]
    } else {
        let parts = split_text(s.drop_last(), sep);
        if s.last() == sep {
            parts.push(Seq::<char>::empty())
        } else {
            parts.drop_last().push(parts.last().push(s.last()))
        }
    }
}

/// The texts that a vector of strings holds.
pub open spec fn texts(v: Seq<String>) -> Seq<Seq<char>> {
    v.map_values(|s: String| s@)
}

/// The parts with the separator between each two neighbours.
pub open spec fn join_text(parts: Seq<Seq<char>>, sep: Seq<char>) -> Seq<char>
    decreases parts.len(),
{
    if parts.len() == 0 {
        Seq::<char>::empty()
    } else if parts.len() == 1 {
        parts[0]
    } else {
        join_text(parts.drop_last(), sep) + sep + parts.last()
    }
}

/// The parts of `s` that stand between the separators `sep`.
pub fn split(s: &str, sep: char) -> (parts: Vec<String>)
    ensures
        texts(parts@) == split_text(s@, sep),
{
    let mut parts: Vec<String> = Vec::new();
    let mut part = String::new();
    proof {
        assert(s@.take(0) =~= Seq::<char>::empty());
        assert(texts(parts@).push(part@) =~= split_text(s@.take(0), sep));
    }
    for c in it: s.chars()
        invariant
            it.seq() == s@,
            texts(parts@).push(part@) == split_text(s@.take(it.index() as int), sep),
    {
        let ghost i = it.index() as int;
        proof {
            assert(s@.take(i + 1).drop_last() =~= s@.take(i));
            assert(c == s@[i]);
        }
        if c == sep {
            let ghost before = texts(parts@).push(part@);
            parts.push(part);
            part = String::new();
            assert(texts(parts@) =~= before);
        } else {
            let ghost before = texts(parts@).push(part@);
            part.push(c);
            assert(before.drop_last() =~= texts(parts@));
        }
    }
    assert(s@.take(s@.len() as int) =~= s@);
    let ghost before = texts(parts@).push(part@);
    parts.push(part);
    assert(texts(parts@) =~= before);
    parts
}

/// Splitting a text and joining the parts again gives the text back; there is at least one part,
/// and none holds the separator.
pub proof fn law_split_then_join(s: Seq<char>, sep: char)
    ensures
        split_text(s, sep).len() > 0,
        join_text(split_text(s, sep), seq![sep]) == s,
        forall|i: int| 0 <= i < split_text(s, sep).len() ==> !(#[trigger] split_text(s, sep)[i]).contains(sep),
    decreases s.len(),
{
    let parts = split_text(s, sep);
    if s.len() > 0 {
        let shorter = split_text(s.drop_last(), sep);
        law_split_then_join(s.drop_last(), sep);
        assert(s =~= s.drop_last().push(s.last()));
        if s.last() == sep {
            assert(parts.drop_last() =~= shorter);
        } else {
            assert(parts.drop_last() =~= shorter.drop_last());
            let last = shorter.last();
            assert(!last.push(s.last()).contains(sep)) by {
                if last.push(s.last()).contains(sep) {
                    let k = choose|k: int| 0 <= k < last.len() + 1 && last.push(s.last())[k] == sep;
                    assert(last[k] == sep);
                }
            }
            assert(join_text(parts, seq![sep]) =~= join_text(shorter, seq![sep]).push(s.last()));
        }
    }
}

/// A part without separators behind a text and a separator is the last part.
pub(crate) proof fn lemma_split_append(s: Seq<char>, sep: char, part: Seq<char>)
    requires
        !part.contains(sep),
    ensures
        split_text(s.push(sep) + part, sep) == split_text(s, sep).push(part),
    decreases part.len(),
{
    let whole = s.push(sep) + part;
    if part.len() == 0 {
        assert(whole =~= s.push(sep));
        assert(whole.drop_last() =~= s);
        assert(part =~= Seq::<char>::empty());
    } else {
        let shorter = part.drop_last();
        assert(!shorter.contains(sep)) by {
            if shorter.contains(sep) {
                let k = choose|k: int| 0 <= k < shorter.len() && shorter[k] == sep;
                assert(part[k] == sep);
            }
        }
        lemma_split_append(s, sep, shorter);
        assert(whole.drop_last() =~= s.push(sep) + shorter);
        assert(whole.last() == part.last());
        assert(part.last() != sep);
        let parts = split_text(s, sep).push(shorter);
        assert(parts.drop_last() =~= split_text(s, sep));
        assert(shorter.push(part.last()) =~= part);
    }
}

/// A part without separators in front of a separator and a text is the first part.
pub(crate) proof fn lemma_split_prepend(part: Seq<char>, sep: char, s: Seq<char>)
    requires
        !part.contains(sep),
    ensures
        split_text(part.push(sep) + s, sep) == seq![part] + split_text(s, sep),
    decreases s.len(),
{
    let whole = part.push(sep) + s;
    if s.len() == 0 {
        assert(whole =~= part.push(sep));
        assert(whole.drop_last() =~= part);
        lemma_split_single(part, sep);
        assert(split_text(whole, sep) =~= seq![part] + split_text(s, sep));
    } else {
        let shorter = split_text(s.drop_last(), sep);
        lemma_split_prepend(part, sep, s.drop_last());
        law_split_then_join(s.drop_last(), sep);
        assert(whole.drop_last() =~= part.push(sep) + s.drop_last());
        assert(whole.last() == s.last());
        assert((seq![part] + shorter).drop_last() =~= seq![part] + shorter.drop_last());
        assert(split_text(whole, sep) =~= seq![part] + split_text(s, sep));
    }
}

/// A text without separators is its own only part.
pub(crate) proof fn lemma_split_single(part: Seq<char>, sep: char)
    requires
        !part.contains(sep),
    ensures
        split_text(part, sep) == seq![part],
    decreases part.len(),
{
    if part.len() > 0 {
        let shorter = part.drop_last();
        assert(!shorter.contains(sep)) by {
            if shorter.contains(sep) {
                let k = choose|k: int| 0 <= k < shorter.len() && shorter[k] == sep;
                assert(part[k] == sep);
            }
        }
        lemma_split_single(shorter, sep);
        assert(part.last() != sep);
        assert(shorter.push(part.last()) =~= part);
        assert(split_text(part, sep) =~= seq![part]);
    } else {
        assert(part =~= Seq::<char>::empty());
    }
}

/// The first part of a text is what stands before its first separator, and the others are the parts
/// of what stands behind it, in their order; a text without separators is its own only part.
pub proof fn law_split_in_order(part: Seq<char>, sep: char, s: Seq<char>)
    requires
        !part.contains(sep),
    ensures
        split_text(part, sep) == seq![part],
        split_text(part + seq![sep] + s, sep) == seq![part] + split_text(s, sep),
{
    lemma_split_single(part, sep);
    lemma_split_prepend(part, sep, s);
    assert(part + seq![sep] + s =~= part.push(sep) + s);
}

/// Joining parts that hold no separator and splitting the text again gives the parts back.
pub proof fn law_join_then_split(parts: Seq<Seq<char>>, sep: char)
    requires
        parts.len() > 0,
        forall|i: int| 0 <= i < parts.len() ==> !(#[trigger] parts[i]).contains(sep),
    ensures
        split_text(join_text(parts, seq![sep]), sep) == parts,
    decreases parts.len(),
{
    if parts.len() == 1 {
        lemma_split_single(parts[0], sep);
        assert(seq![parts[0]] =~= parts);
    } else {
        let front = parts.drop_last();
        assert forall|i: int| 0 <= i < front.len() implies !(#[trigger] front[i]).contains(sep) by {
            assert(front[i] == parts[i]);
        }
        law_join_then_split(front, sep);
        let head = join_text(front, seq![sep]);
        lemma_split_append(head, sep, parts.last());
        assert(head + seq![sep] + parts.last() =~= head.push(sep) + parts.last());
        assert(front.push(parts.last()) =~= parts);
    }
}

// Text for a log.

/// The hexadecimal digit of a value below sixteen.
pub open spec fn hex_digit(n: int) -> char {
    if n < 10 {
        (48 + n) as char
    } else {
        (87 + n) as char
    }
}

/// The characters that stand for one byte: a printable ASCII character stands for itself, but for
/// the quotes and the backslash, which get a backslash before them; tab, carriage return and line
/// feed have escapes of their own; any other byte is written in hexadecimal.
pub open spec fn escaped_byte(b: u8) -> Seq<char> {
    if b == 9 {
        seq!['\\', 't']
    } else if b == 13 {
        seq!['\\', 'r']
    } else if b == 10 {
        seq!['\\', 'n']
    } else if b == 34 || b == 39 || b == 92 {
        seq!['\\', b as char]
    } else if 32 <= b <= 126 {
        seq![b as char]
    } else {
        seq!['\\', 'x', hex_digit(b as int / 16), hex_digit(b as int % 16)]
    }
}

/// The escapes of all bytes, one behind the other.
pub open spec fn escaped_text(bytes: Seq<u8>) -> Seq<char>
    decreases bytes.len(),
{
    if bytes.len() == 0 {
        Seq::<char>::empty()
    } else {
        escaped_text(bytes.drop_last()) + escaped_byte(bytes.last())
    }
}

fn hex(n: u8) -> (c: char)
    requires
        n < 16,
    ensures
        c == hex_digit(n as int),
{
    if n < 10 {
        (48 + n) as char
    } else {
        (87 + n) as char
    }
}

/// A request in printable ASCII.
pub fn escape_request(req: &[u8]) -> (escaped: String)
    ensures
        escaped@ == escaped_text(req@),
{
    let mut escaped = String::new();
    assert(req@.take(0) =~= Seq::<u8>::empty());
    for i in 0..req.len()
        invariant
            escaped@ == escaped_text(req@.take(i as int)),
    {
        let b = req[i];
        let ghost before = escaped@;
        if b == 9 {
            escaped.push('\\');
            escaped.push('t');
        } else if b == 13 {
            escaped.push('\\');
            escaped.push('r');
        } else if b == 10 {
            escaped.push('\\');
            escaped.push('n');
        } else if b == 34 || b == 39 || b == 92 {
            escaped.push('\\');
            escaped.push(b as char);
        } else if 32 <= b && b <= 126 {
            escaped.push(b as char);
        } else {
            escaped.push('\\');
            escaped.push('x');
            escaped.push(hex(b / 16));
            escaped.push(hex(b % 16));
        }
        proof {
            assert(escaped@ =~= before + escaped_byte(b));
            assert(req@.take(i + 1).drop_last() =~= req@.take(i as int));
        }
    }
    assert(req@.take(req@.len() as int) =~= req@);
    escaped
}

/// An escaped request is printable ASCII.
pub proof fn law_escaped_is_printable(bytes: Seq<u8>)
    ensures
        forall|i: int|
            0 <= i < escaped_text(bytes).len() ==> ' ' <= #[trigger] escaped_text(bytes)[i] <= '~',
    decreases bytes.len(),
{
    if bytes.len() > 0 {
        let front = escaped_text(bytes.drop_last());
        let back = escaped_byte(bytes.last());
        law_escaped_is_printable(bytes.drop_last());
        let whole = escaped_text(bytes);
        assert forall|i: int| 0 <= i < whole.len() implies ' ' <= #[trigger] whole[i] <= '~' by {
            if i < front.len() {
                assert(whole[i] == front[i]);
            } else {
                assert(whole[i] == back[i - front.len()]);
            }
        }
    }
}

/// The name of the application protocol that a connection agreed on, for a log.
pub fn protocol_label(protocol: Option<&[u8]>) -> (label: String)
    ensures
        label@ == match protocol {
            None => "<none>"@,
            Some(name) => lossy_text(name@),
        },
        protocol matches Some(name) ==> valid_utf8(name@) ==> label@ == decode_utf8(name@),
{
    match protocol {
        None => "<none>".to_string(),
        Some(name) => from_utf8_lossy(name),
    }
}

/// A connection without a protocol is labelled so, and the name of any other is shown as it stands,
/// if it is UTF-8.
pub proof fn law_label_is_name(name: &[u8], label: String, unnamed: String)
    requires
        call_ensures(protocol_label, (Some(name),), label),
        call_ensures(protocol_label, (None,), unnamed),
    ensures
        unnamed@ == "<none>"@,
        label@ == lossy_text(name@),
        valid_utf8(name@) ==> label@ == decode_utf8(name@),
{
}

/// Bytes are escaped one by one, in order, each by characters of its own: the printable ones of
/// ASCII by themselves, quotes and backslashes behind a backslash, tabs and the ends of lines by
/// their letters, and the others by their hexadecimal digits.
pub proof fn law_escapes(a: Seq<u8>, b: Seq<u8>, byte: u8)
    ensures
        escaped_text(Seq::<u8>::empty()) == Seq::<char>::empty(),
        escaped_text(a + b) == escaped_text(a) + escaped_text(b),
        byte == 9 ==> escaped_text(seq![byte]) == "\\t"@,
        byte == 10 ==> escaped_text(seq![byte]) == "\\n"@,
        byte == 13 ==> escaped_text(seq![byte]) == "\\r"@,
        byte == 34 || byte == 39 || byte == 92 ==> escaped_text(seq![byte]) == seq![
            '\\',
            byte as char,
        ],
        32 <= byte <= 126 && byte != 34 && byte != 39 && byte != 92 ==> escaped_text(seq![byte])
            == seq![byte as char],
        (byte < 32 && byte != 9 && byte != 10 && byte != 13) || byte > 126 ==> escaped_text(
            seq![byte],
        ) == seq![
            '\\',
            'x',
            "0123456789abcdef"@[byte as int / 16],
            "0123456789abcdef"@[byte as int % 16],
        ],
    decreases b.len(),
{
    reveal_strlit("\\t");
    reveal_strlit("\\n");
    reveal_strlit("\\r");
    reveal_strlit("0123456789abcdef");
    assert(escaped_text(Seq::<u8>::empty()) == Seq::<char>::empty());
    assert(seq![byte].drop_last() =~= Seq::<u8>::empty());
    assert(escaped_text(seq![byte]) =~= escaped_byte(byte));
    assert forall|n: int| 0 <= n < 16 implies #[trigger] hex_digit(n) == "0123456789abcdef"@[n] by {
    }
    assert("\\t"@ =~= seq!['\\', 't']);
    assert("\\n"@ =~= seq!['\\', 'n']);
    assert("\\r"@ =~= seq!['\\', 'r']);
    if b.len() == 0 {
        assert(a + b =~= a);
        assert(escaped_text(a) + escaped_text(b) =~= escaped_text(a));
    } else {
        law_escapes(a, b.drop_last(), byte);
        assert((a + b).drop_last() =~= a + b.drop_last());
        assert(escaped_text(a + b) =~= escaped_text(a) + escaped_text(b));
    }
}

/// What is shown of a request is its escaped bytes.
pub proof fn law_request_shown(req: &[u8], shown: String)
    requires
        call_ensures(escape_request, (req,), shown),
    ensures
        shown@ == escaped_text(req@),
{
}

/// The texts of strings are theirs, one by one and in their order.
pub proof fn law_texts(v: Seq<String>, i: int)
    requires
        0 <= i < v.len(),
    ensures
        texts(v).len() == v.len(),
        texts(v)[i] == v[i]@,
{
}

} // verus!
