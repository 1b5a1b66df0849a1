//! What answers a session: a provider, and one that plays a script.
use std::collections::VecDeque;

use vstd::prelude::*;

use crate::message::{says, session_id, Message, MessageView, Role, Session, SessionView};

verus! {

/// Why a provider gave no reply.
#[derive(Debug, PartialEq, Eq)]
pub enum ProviderError {
    /// A scripted provider ran out of responses.
    NoMoreResponses,
    /// The backend of a provider failed, with its message.
    Backend(String),
}

/// What a [`ProviderError`] says.
pub enum ProviderErrorView {
    NoMoreResponses,
    Backend(Seq<char>),
}

impl View for ProviderError {
    type V = ProviderErrorView;

    open spec fn view(&self) -> ProviderErrorView {
        match self {
            ProviderError::NoMoreResponses => ProviderErrorView::NoMoreResponses,
            ProviderError::Backend(e) => ProviderErrorView::Backend(e@),
        }
    }
}

impl ProviderErrorView {
    /// The error in words.
    pub open spec fn text(self) -> Seq<char> {
        match self {
            ProviderErrorView::NoMoreResponses => "no more scripted responses"@,
            ProviderErrorView::Backend(e) => "provider backend error: "@ + e,
        }
    }

    /// The message of the error beneath this one.
    pub open spec fn cause(self) -> Option<Seq<char>> {
        match self {
            ProviderErrorView::NoMoreResponses => None,
            ProviderErrorView::Backend(e) => Some(e),
        }
    }
}

/// The text of an optional string.
pub open spec fn optional(t: Option<String>) -> Option<Seq<char>> {
    match t {
        Some(text) => Some(text@),
        None => None,
    }
}

impl ProviderError {
    /// The error in words.
    pub fn to_string(&self) -> (r: String)
        ensures
            r@ == self@.text(),
    {
        match self {
            ProviderError::NoMoreResponses => "no more scripted responses".to_owned(),
            ProviderError::Backend(e) => {
                let mut text = "provider backend error: ".to_owned();
                text.append(e.as_str());
                text
            },
        }
    }

    /// The message of the error beneath this one.
    pub fn source(&self) -> (r: Option<String>)
        ensures
            optional(r) == self@.cause(),
    {
        match self {
            ProviderError::NoMoreResponses => None,
            ProviderError::Backend(e) => Some(e.clone()),
        }
    }
}

/// What a provider replied.
pub open spec fn reply_view(r: Result<Message, ProviderError>) -> Result<
    MessageView,
    ProviderErrorView,
> {
    match r {
        Ok(message) => Ok(message@),
        Err(e) => Err(e@),
    }
}

/// What answers a session with the next message.
pub trait Provider: Sized {
    /// Whether a provider in this state may give `reply` to `session`, and be
    /// in the state `next` after that. One that says nothing of it may give
    /// any reply.
    open spec fn completes(
        self,
        session: SessionView,
        reply: Result<MessageView, ProviderErrorView>,
        next: Self,
    ) -> bool {
        true
    }

    /// The reply to a session.
    fn complete(&mut self, session: &Session) -> (r: Result<Message, ProviderError>)
        ensures
            old(self).completes(session@, reply_view(r), *final(self)),
    ;
}

/// A provider that gives the responses of a script, one after another.
pub struct MockProvider {
    scripted: VecDeque<String>,
}

impl View for MockProvider {
    type V = Seq<Seq<char>>;

    /// The responses that are left.
    closed spec fn view(&self) -> Seq<Seq<char>> {
        self.scripted@.map_values(|s: String| s@)
    }
}

impl MockProvider {
    /// A provider that gives these responses in this order.
    pub fn new<const N: usize>(responses: [&str; N]) -> (r: Self)
        ensures
            r@ == responses@.map_values(|s: &str| s@),
    {
        let mut scripted: VecDeque<String> = VecDeque::new();
        let mut i: usize = 0;
        while i < N
            invariant
                i <= N == responses@.len(),
                scripted@.len() == i,
                forall|k: int| 0 <= k < i ==> (#[trigger] scripted@[k])@ == responses@[k]@,
            decreases N - i,
        {
            scripted.push_back(responses[i].to_owned());
            i = i + 1;
        }
        let provider = Self { scripted };
        assert(provider@ =~= responses@.map_values(|s: &str| s@));
        provider
    }
}

/// What a script with these responses left replies.
pub open spec fn scripted_reply(left: Seq<Seq<char>>) -> Result<MessageView, ProviderErrorView> {
    if left.len() == 0 {
        Err(ProviderErrorView::NoMoreResponses)
    } else {
        Ok(says(Role::Assistant, left[0]))
    }
}

/// The responses that are left after one reply.
pub open spec fn script_after(left: Seq<Seq<char>>) -> Seq<Seq<char>> {
    if left.len() == 0 {
        left
    } else {
        left.drop_first()
    }
}

impl Provider for MockProvider {
    open spec fn completes(
        self,
        session: SessionView,
        reply: Result<MessageView, ProviderErrorView>,
        next: Self,
    ) -> bool {
        reply == scripted_reply(self@) && next@ == script_after(self@)
    }

    fn complete(&mut self, session: &Session) -> (r: Result<Message, ProviderError>) {
        match self.scripted.pop_front() {
            Some(content) => {
                assert(self@ =~= old(self)@.drop_first());
                Ok(Message { role: Role::Assistant, content })
            },
            None => {
                assert(self@ =~= old(self)@);
                Err(ProviderError::NoMoreResponses)
            },
        }
    }
}

/// The session of a single turn: fresh at some time, with the user's message.
pub open spec fn single_turn(created_at: u64, user_message: Seq<char>) -> SessionView {
    SessionView {
        id: session_id(created_at),
        created_at,
        messages: seq![says(Role::User, user_message)],
    }
}

/// Ask a provider for its reply to one message of the user.
pub fn one_turn<P: Provider>(provider: &mut P, user_message: &str) -> (r: Result<
    Message,
    ProviderError,
>)
    ensures
        exists|created_at: u64|
            old(provider).completes(
                #[trigger] single_turn(created_at, user_message@),
                reply_view(r),
                *final(provider),
            ),
{
    let mut session = Session::start();
    session.push_message(Message::new(Role::User, user_message));
    assert(session@.messages =~= seq![says(Role::User, user_message@)]);
    assert(session@ == single_turn(session@.created_at, user_message@));
    provider.complete(&session)
}

} // verus!
