//! Turning retrieval context and a user question into the request for the
//! language model, and forwarding its streamed answer: one event per token
//! as produced, a mid-stream failure surfaced as one final in-band error
//! element — output already delivered cannot be retracted — and an
//! explicit terminal marker closing every stream.

use vstd::prelude::*;
use vstd::string::*;
use crate::error::RagError;

verus! {

/// The fixed instruction given to the language model.
pub open spec fn spec_system_prompt() -> Seq<char> {
    "You are a helpful AI assistant that answers questions based on the provided context from a knowledge base. \n\nInstructions:\n1. Use only the information provided in the context to answer questions\n2. If the context doesn't contain enough information to answer the question, say so clearly\n3. Cite your sources by referencing the source numbers in brackets (e.g., [Source 1], [Source 2])\n4. Be concise but comprehensive in your answers\n5. If asked about something not in the context, politely explain that you don't have that information\n6. Maintain a helpful and professional tone\n\nThe context provided will include source information and relevance scores to help you understand the quality of the information."@
}

/// The system instruction: answer only from the context, cite the
/// bracketed source numbers, admit when the context is not enough.
pub fn build_system_prompt() -> (r: String)
    ensures
        r@ == spec_system_prompt(),
{
    String::from_str(
        "You are a helpful AI assistant that answers questions based on the provided context from a knowledge base. \n\nInstructions:\n1. Use only the information provided in the context to answer questions\n2. If the context doesn't contain enough information to answer the question, say so clearly\n3. Cite your sources by referencing the source numbers in brackets (e.g., [Source 1], [Source 2])\n4. Be concise but comprehensive in your answers\n5. If asked about something not in the context, politely explain that you don't have that information\n6. Maintain a helpful and professional tone\n\nThe context provided will include source information and relevance scores to help you understand the quality of the information.",
    )
}

/// The user message handed to the model: the context, then the question.
pub open spec fn spec_user_prompt(context: Seq<char>, user_message: Seq<char>) -> Seq<char> {
    "Context:\n"@ + context + "\n\nUser Question: "@ + user_message
}

/// Executable form of [`spec_user_prompt`].
pub fn build_user_prompt(context: &str, user_message: &str) -> (r: String)
    ensures
        r@ == spec_user_prompt(context@, user_message@),
{
    proof {
        reveal_strlit("Context:\n");
        reveal_strlit("\n\nUser Question: ");
    }
    let mut out = String::from_str("Context:\n");
    out.append(context);
    out.append("\n\nUser Question: ");
    out.append(user_message);
    proof {
        assert(out@ =~= spec_user_prompt(context@, user_message@));
    }
    out
}

/// One element of the model's streamed reply, reduced to plain shape: a
/// delivery that may carry text, or the stream's failure.
#[derive(Debug, Clone)]
pub enum StreamItem {
    Piece { content: Option<String> },
    Failure { message: String },
}

/// The token a streamed element contributes: its text, the empty string
/// for a delivery without text, or the stream's failure as an error.
pub fn token_from_item(item: &StreamItem) -> (r: Result<String, RagError>)
    ensures
        item matches StreamItem::Piece { content } ==> r matches Result::Ok(t) && t@ == (
        match content {
            Option::Some(c) => c@,
            Option::None => Seq::<char>::empty(),
        }),
        item matches StreamItem::Failure { message } ==> r matches Result::Err(e) && e matches
            RagError::LlmFailed(m) && m@ == message@,
{
    match item {
        StreamItem::Piece { content: Option::Some(c) } => Result::Ok(c.clone()),
        StreamItem::Piece { content: Option::None } => Result::Ok(String::new()),
        StreamItem::Failure { message } => Result::Err(RagError::LlmFailed(message.clone())),
    }
}

/// The non-streaming reply: the first choice's text. A reply without
/// choices, or whose choice carries no text, is a failure.
pub fn completion_from_choice(choice_content: Option<Option<String>>) -> (r: Result<
    String,
    RagError,
>)
    ensures
        choice_content matches Option::Some(Option::Some(c)) ==> r matches Result::Ok(t) && t@
            == c@,
        choice_content matches Option::Some(Option::None) ==> r matches Result::Err(e) && e
            matches RagError::LlmFailed(m) && m@ == "No content in response"@,
        choice_content is None ==> (r matches Result::Err(e) && e matches RagError::LlmFailed(m)
            && m@ == "No choices in response"@),
{
    match choice_content {
        Option::Some(Option::Some(c)) => Result::Ok(c),
        Option::Some(Option::None) => Result::Err(
            RagError::LlmFailed(String::from_str("No content in response")),
        ),
        Option::None => Result::Err(RagError::LlmFailed(String::from_str("No choices in response"))),
    }
}

/// Mathematical image of [`TokenResult`].
pub ghost enum TokenResultView {
    Token(Seq<char>),
    Failed(Seq<char>),
}

/// One outcome of pulling the upstream token stream: a token, or the
/// stream's failure with its message.
#[derive(Debug)]
pub enum TokenResult {
    Token(String),
    Failed { message: String },
}

impl Clone for TokenResult {
    /// Clones the carried text, so a forwarded outcome is provably the
    /// one received.
    fn clone(&self) -> (r: Self)
        ensures
            r@ == self@,
    {
        match self {
            TokenResult::Token(t) => TokenResult::Token(t.clone()),
            TokenResult::Failed { message } => TokenResult::Failed { message: message.clone() },
        }
    }
}

impl View for TokenResult {
    type V = TokenResultView;

    open spec fn view(&self) -> TokenResultView {
        match self {
            TokenResult::Token(t) => TokenResultView::Token(t@),
            TokenResult::Failed { message } => TokenResultView::Failed(message@),
        }
    }
}

/// Mathematical image of [`ChatEvent`].
pub ghost enum ChatEventView {
    Token(Seq<char>),
    ErrorNotice(Seq<char>),
    Done,
}

/// One event pushed to the chat caller: an answer token, a single in-band
/// error closing a failed stream, or the terminal marker.
#[derive(Debug, Clone)]
pub enum ChatEvent {
    Token(String),
    ErrorNotice(String),
    Done,
}

impl View for ChatEvent {
    type V = ChatEventView;

    open spec fn view(&self) -> ChatEventView {
        match self {
            ChatEvent::Token(t) => ChatEventView::Token(t@),
            ChatEvent::ErrorNotice(m) => ChatEventView::ErrorNotice(m@),
            ChatEvent::Done => ChatEventView::Done,
        }
    }
}

/// Whether the forwarder still accepts upstream outcomes.
#[derive(Debug, Clone, Copy, PartialEq, Eq, Structural)]
pub enum ForwardPhase {
    Streaming,
    Closed,
}

/// The in-band error text for an upstream failure message.
pub open spec fn spec_error_notice(m: Seq<char>) -> Seq<char> {
    "Error: "@ + m
}

/// The events a whole upstream run produces: every token until the first
/// failure; a failure replaces the rest of the run with one in-band error
/// notice; a run that ends without failure closes with the terminal
/// marker.
pub open spec fn spec_forward_run(items: Seq<TokenResultView>) -> Seq<ChatEventView>
    decreases items.len(),
{
    if items.len() == 0 {
        seq![ChatEventView::Done]
    } else {
        match items[0] {
            TokenResultView::Token(t) => seq![ChatEventView::Token(t)] + spec_forward_run(
                items.drop_first(),
            ),
            TokenResultView::Failed(m) => seq![ChatEventView::ErrorNotice(spec_error_notice(m))],
        }
    }
}

/// One step of the forwarder: what to emit for the next upstream outcome
/// (`None` is the upstream's end), and whether to keep consuming. After a
/// failure or the end the forwarder is closed and emits nothing more.
pub open spec fn spec_forward_step(phase: ForwardPhase, item: Option<TokenResultView>) -> (
    ForwardPhase,
    Option<ChatEventView>,
) {
    match (phase, item) {
        (ForwardPhase::Streaming, Option::Some(TokenResultView::Token(t))) => (
            ForwardPhase::Streaming,
            Option::Some(ChatEventView::Token(t)),
        ),
        (ForwardPhase::Streaming, Option::Some(TokenResultView::Failed(m))) => (
            ForwardPhase::Closed,
            Option::Some(ChatEventView::ErrorNotice(spec_error_notice(m))),
        ),
        (ForwardPhase::Streaming, Option::None) => (
            ForwardPhase::Closed,
            Option::Some(ChatEventView::Done),
        ),
        (ForwardPhase::Closed, _) => (ForwardPhase::Closed, Option::None),
    }
}

/// Executable form of [`spec_forward_step`].
pub fn forward_step(phase: ForwardPhase, item: Option<TokenResult>) -> (r: (
    ForwardPhase,
    Option<ChatEvent>,
))
    ensures
        ({
            let ghost_item = match item {
                Option::Some(i) => Option::Some(i@),
                Option::None => Option::<TokenResultView>::None,
            };
            let step = spec_forward_step(phase, ghost_item);
            &&& r.0 == step.0
            &&& (match r.1 {
                Option::Some(e) => step.1 == Option::Some(e@),
                Option::None => step.1 is None,
            })
        }),
{
    proof {
        reveal_strlit("Error: ");
    }
    match (phase, item) {
        (ForwardPhase::Streaming, Option::Some(TokenResult::Token(t))) => (
            ForwardPhase::Streaming,
            Option::Some(ChatEvent::Token(t)),
        ),
        (ForwardPhase::Streaming, Option::Some(TokenResult::Failed { message })) => {
            let mut text = String::from_str("Error: ");
            text.append(message.as_str());
            proof {
                assert(text@ =~= spec_error_notice(message@));
            }
            (ForwardPhase::Closed, Option::Some(ChatEvent::ErrorNotice(text)))
        },
        (ForwardPhase::Streaming, Option::None) => (
            ForwardPhase::Closed,
            Option::Some(ChatEvent::Done),
        ),
        (ForwardPhase::Closed, _) => (ForwardPhase::Closed, Option::None),
    }
}

/// The forwarder, run over a complete upstream: emits exactly
/// [`spec_forward_run`] of it.
pub fn forward_collect(items: &Vec<TokenResult>) -> (r: Vec<ChatEvent>)
    ensures
        Seq::new(r@.len(), |i: int| r@[i]@) == spec_forward_run(
            Seq::new(items@.len(), |i: int| items@[i]@),
        ),
{
    let ghost views = Seq::new(items@.len(), |i: int| items@[i]@);
    let mut out: Vec<ChatEvent> = Vec::new();
    let mut phase = ForwardPhase::Streaming;
    let mut i: usize = 0;
    let n: usize = items.len();
    proof {
        assert(views.skip(0) =~= views);
        assert(Seq::new(out@.len(), |m: int| out@[m]@) =~= Seq::<ChatEventView>::empty());
    }
    while i < n && phase == ForwardPhase::Streaming
        invariant
            0 <= i <= n,
            n == items@.len(),
            views == Seq::new(items@.len(), |m: int| items@[m]@),
            phase == ForwardPhase::Streaming ==> spec_forward_run(views) == Seq::new(
                out@.len(),
                |m: int| out@[m]@,
            ) + spec_forward_run(views.skip(i as int)),
            phase == ForwardPhase::Closed ==> spec_forward_run(views) == Seq::new(
                out@.len(),
                |m: int| out@[m]@,
            ),
        decreases n - i,
    {
        let ghost rest = views.skip(i as int);
        let ghost prev = Seq::new(out@.len(), |m: int| out@[m]@);
        let item = items[i].clone();
        proof {
            assert(rest[0] == views[i as int]);
            assert(item@ == rest[0]);
        }
        let (next_phase, event) = forward_step(phase, Option::Some(item));
        if let Option::Some(e) = event {
            out.push(e);
        }
        proof {
            assert(rest.drop_first() =~= views.skip(i + 1));
            let emitted = spec_forward_step(phase, Option::Some(rest[0])).1->0;
            assert(Seq::new(out@.len(), |m: int| out@[m]@) =~= prev.push(emitted));
            match rest[0] {
                TokenResultView::Token(t) => {
                    assert(spec_forward_run(rest) == seq![ChatEventView::Token(t)]
                        + spec_forward_run(rest.drop_first()));
                    assert(prev + spec_forward_run(rest) =~= prev.push(emitted)
                        + spec_forward_run(views.skip(i + 1)));
                },
                TokenResultView::Failed(m) => {
                    assert(spec_forward_run(rest) =~= seq![
                        ChatEventView::ErrorNotice(spec_error_notice(m)),
                    ]);
                    assert(prev + spec_forward_run(rest) =~= prev.push(emitted));
                },
            }
        }
        phase = next_phase;
        i = i + 1;
    }
    if phase == ForwardPhase::Streaming {
        let (_, event) = forward_step(phase, Option::None);
        if let Option::Some(e) = event {
            let ghost prev = Seq::new(out@.len(), |m: int| out@[m]@);
            out.push(e);
            proof {
                assert(views.skip(n as int) =~= Seq::<TokenResultView>::empty());
                assert(Seq::new(out@.len(), |m: int| out@[m]@) =~= prev.push(ChatEventView::Done));
                assert(prev.push(ChatEventView::Done) =~= prev + seq![ChatEventView::Done]);
            }
        }
    }
    out
}

/// The streaming protocol's shape, for any upstream run: at least one
/// event is emitted; every event before the last is a token; the last is
/// the terminal marker or a single in-band error notice; and the marker
/// closes the run exactly when no upstream failure occurred.
pub proof fn lemma_forward_protocol(items: Seq<TokenResultView>)
    ensures
        spec_forward_run(items).len() >= 1,
        forall|k: int|
            0 <= k < spec_forward_run(items).len() - 1 ==> (#[trigger] spec_forward_run(items)[k])
                is Token,
        (spec_forward_run(items).last() is Done || spec_forward_run(items).last() is ErrorNotice),
        (spec_forward_run(items).last() is Done) <==> (forall|j: int|
            0 <= j < items.len() ==> (#[trigger] items[j]) is Token),
    decreases items.len(),
{
    if items.len() > 0 {
        match items[0] {
            TokenResultView::Token(t) => {
                lemma_forward_protocol(items.drop_first());
                let rest = spec_forward_run(items.drop_first());
                let whole = spec_forward_run(items);
                assert(whole =~= seq![ChatEventView::Token(t)] + rest);
                assert(whole.last() == rest.last());
                assert forall|k: int| 0 <= k < whole.len() - 1 implies (#[trigger] whole[k])
                    is Token by {
                    if k > 0 {
                        assert(whole[k] == rest[k - 1]);
                    }
                }
                if whole.last() is Done {
                    assert forall|j: int|
                        0 <= j < items.len() implies (#[trigger] items[j]) is Token by {
                        if j > 0 {
                            assert(items.drop_first()[j - 1] == items[j]);
                        }
                    }
                } else {
                    assert(!(rest.last() is Done));
                    let w = choose|j: int|
                        0 <= j < items.drop_first().len() && !((#[trigger] items.drop_first()[j])
                            is Token);
                    assert(items[w + 1] == items.drop_first()[w]);
                }
            },
            TokenResultView::Failed(m) => {
                assert(!(spec_forward_run(items).last() is Done));
                assert(!(items[0] is Token));
            },
        }
    }
}

} // verus!
