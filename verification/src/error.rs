use crate::text::{join_text, texts};
use vstd::prelude::*;

verus! {

/// An error as it is shown: its own message, and those of its causes, outermost first.
pub struct PrettyErr {
    pub message: String,
    pub causes: Vec<String>,
}

impl View for PrettyErr {
    type V = Seq<Seq<char>>;

    /// The chain of messages, never empty.
    open spec fn view(&self) -> Seq<Seq<char>> {
        seq![self.message@] + texts(self.causes@)
    }
}

/// The one line in which a chain of messages is shown.
pub open spec fn pretty_text(chain: Seq<Seq<char>>) -> Seq<char> {
    join_text(chain, ": "@)
}

impl PrettyErr {
    /// An error without a cause.
    pub fn new(message: String) -> (e: PrettyErr)
        ensures
            e@ == seq![message@],
    {
        let e = PrettyErr { message, causes: Vec::new() };
        assert(e@ =~= seq![message@]);
        e
    }

    /// The error that `message` describes and `self` caused.
    pub fn context(self, message: String) -> (e: PrettyErr)
        ensures
            e@ == seq![message@] + self@,
    {
        let ghost chain = self@;
        let mut causes: Vec<String> = self.causes;
        let ghost rest = causes@;
        causes.insert(0, self.message);
        assert(texts(causes@) =~= chain) by {
            assert(causes@ =~= rest.insert(0, self.message));
        }
        PrettyErr { message, causes }
    }

    /// The message and the messages of all causes, with a colon and a space between them.
    pub fn to_string(&self) -> (s: String)
        ensures
            s@ == pretty_text(self@),
    {
        let mut s = self.message.clone();
        assert(self@.take(1) =~= seq![self.message@]);
        for i in 0..self.causes.len()
            invariant
                s@ == pretty_text(self@.take(i + 1)),
        {
            s.append(": ");
            s.append(self.causes[i].as_str());
            proof {
                let longer = self@.take(i + 2);
                assert(longer.drop_last() =~= self@.take(i + 1));
                assert(longer.last() == self.causes@[i as int]@);
            }
        }
        assert(self@.take(self.causes@.len() as int + 1) =~= self@);
        s
    }
}

/// An error is shown before what caused it: its own message, a colon and a space, and then what is
/// shown of the cause.
pub proof fn law_context_in_front(message: Seq<char>, cause: Seq<Seq<char>>)
    requires
        cause.len() > 0,
    ensures
        pretty_text(seq![message]) == message,
        pretty_text(seq![message] + cause) == message + ": "@ + pretty_text(cause),
    decreases cause.len(),
{
    let whole = seq![message] + cause;
    assert(whole.drop_last() =~= seq![message] + cause.drop_last());
    assert(whole.last() == cause.last());
    if cause.len() == 1 {
        assert(whole.drop_last() =~= seq![message]);
    } else {
        law_context_in_front(message, cause.drop_last());
        assert(pretty_text(whole) =~= message + ": "@ + pretty_text(cause));
    }
}

/// What is shown of an error is its own message and those of its causes, in their order.
pub proof fn law_shown_in_order(e: &PrettyErr, shown: String)
    requires
        call_ensures(PrettyErr::to_string, (e,), shown),
    ensures
        e@.len() == e.causes@.len() + 1,
        e@[0] == e.message@,
        forall|i: int| 0 <= i < e.causes@.len() ==> e@[i + 1] == (#[trigger] e.causes@[i])@,
        shown@ == pretty_text(e@),
{
}

/// Errors that can be shown with their causes.
pub trait ErrorExt {
    /// The error and its causes, to be shown in one line.
    fn pretty(&self) -> PrettyErr;
}

#[verifier::external_type_specification]
#[verifier::external_body]
pub struct ExFailureError(failure::Error);

/// `failure::Error::iter_chain` walks from the failure itself to its root cause, so it gives at
/// least one item; each is shown by its `Display`. The first is the failure that the error holds, and
/// the `Display` of the error is that of this failure, so the first message is the text of the error.
/// Of the messages of the causes nothing is claimed: the failure decides on them.
#[verifier::external_body]
fn chain_messages(error: &failure::Error) -> (messages: Vec<String>)
    ensures
        messages@.len() > 0,
        vstd::string::to_string_from_display_ensures::<failure::Error>(error, messages@[0]),
{
    error.iter_chain().map(|fail| fail.to_string()).collect()
}

/// Whether `chain` are messages that walking the causes of `error` can give.
pub closed spec fn reported(error: failure::Error, chain: Seq<Seq<char>>) -> bool {
    exists|messages: Vec<String>|
        #[trigger] call_ensures(chain_messages, (&error,), messages) && chain == texts(messages@)
}

impl ErrorExt for failure::Error {
    fn pretty(&self) -> (p: PrettyErr)
        ensures
            reported(*self, p@),
            vstd::string::to_string_from_display_ensures::<failure::Error>(self, p.message),
    {
        let mut causes = chain_messages(self);
        let ghost messages = causes;
        let message = causes.remove(0);
        let p = PrettyErr { message, causes };
        assert(p@ =~= texts(messages@));
        p
    }
}

/// The messages of a failure are all those that walking its causes gave, in their order.
proof fn law_reported_by_walking(error: failure::Error, chain: Seq<Seq<char>>)
    requires
        reported(error, chain),
    ensures
        exists|messages: Vec<String>|
            {
                &&& #[trigger] call_ensures(chain_messages, (&error,), messages)
                &&& messages@.len() == chain.len()
                &&& forall|i: int| 0 <= i < chain.len() ==> #[trigger] chain[i] == messages@[i]@
            },
{
}

} // verus!
