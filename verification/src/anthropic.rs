//! The completion provider's wire format: what is sent as the system prompt
//! and as messages, and what a response or a failure means.

use crate::openai::{ChatMessage, ChatMessageView};
use crate::table::{first_index, position, views, Selector};
use crate::text::{joined, same_text, text_view};
use vstd::prelude::*;
use vstd::string::StringExecFns;

verus! {

/// A message as the provider takes it: the system prompt travels apart.
#[derive(Debug, Clone)]
pub struct AnthropicMessage {
    pub role: String,
    pub content: String,
}

/// The plain value of an `AnthropicMessage`.
pub ghost struct AnthropicMessageView {
    pub role: Seq<char>,
    pub content: Seq<char>,
}

impl View for AnthropicMessage {
    type V = AnthropicMessageView;

    open spec fn view(&self) -> AnthropicMessageView {
        AnthropicMessageView { role: self.role@, content: self.content@ }
    }
}

/// The role that marks a system message.
pub open spec fn system_role() -> Seq<char> {
    "system"@
}

/// What stands between two system messages in the system prompt.
pub open spec fn prompt_separator() -> Seq<char> {
    "\n\n"@
}

/// The condition of being a system message.
pub open spec fn is_system() -> spec_fn(ChatMessageView) -> bool {
    |message: ChatMessageView| message.role == system_role()
}

/// The condition of being anything but a system message.
pub open spec fn is_turn() -> spec_fn(ChatMessageView) -> bool {
    |message: ChatMessageView| message.role != system_role()
}

/// The contents of the system messages, in their order.
pub open spec fn system_parts(messages: Seq<ChatMessageView>) -> Seq<Seq<char>> {
    messages.filter(is_system()).map_values(|message: ChatMessageView| message.content)
}

/// The system prompt of a conversation: the contents of its system messages
/// with a blank line between them, or nothing where it has none.
pub open spec fn system_prompt_of(messages: Seq<ChatMessageView>) -> Option<Seq<char>> {
    if system_parts(messages).len() == 0 {
        None
    } else {
        Some(joined(system_parts(messages), prompt_separator()))
    }
}

/// The messages of a conversation that are no system messages, in their
/// order, each with its role and content.
pub open spec fn turns_of(messages: Seq<ChatMessageView>) -> Seq<AnthropicMessageView> {
    messages.filter(is_turn()).map_values(
        |message: ChatMessageView|
            AnthropicMessageView { role: message.role, content: message.content },
    )
}

/// The plain value of a prompt that may be absent.
pub open spec fn prompt_view(prompt: Option<String>) -> Option<Seq<char>> {
    match prompt {
        Some(p) => Some(p@),
        None => None,
    }
}

/// What the system prompt and the turns become when one more message is
/// taken in.
proof fn lemma_convert_step(head: Seq<ChatMessageView>, next: ChatMessageView)
    ensures
        system_parts(head.push(next)) == if next.role == system_role() {
            system_parts(head).push(next.content)
        } else {
            system_parts(head)
        },
        turns_of(head.push(next)) == if next.role == system_role() {
            turns_of(head)
        } else {
            turns_of(head).push(
                AnthropicMessageView { role: next.role, content: next.content },
            )
        },
{
    head.lemma_filter_push(next, is_system());
    head.lemma_filter_push(next, is_turn());
    if next.role == system_role() {
        assert(system_parts(head.push(next)) =~= system_parts(head).push(next.content));
    } else {
        assert(turns_of(head.push(next)) =~= turns_of(head).push(
            AnthropicMessageView { role: next.role, content: next.content },
        ));
    }
}

/// Splits role-tagged messages into the system prompt and the turns of the
/// conversation. System messages are joined, in their order, with a blank
/// line between them; every other message keeps its place, role and content.
pub fn convert_messages(messages: Vec<ChatMessage>) -> (converted: (
    Option<String>,
    Vec<AnthropicMessage>,
))
    ensures
        prompt_view(converted.0) == system_prompt_of(views(messages@)),
        views(converted.1@) == turns_of(views(messages@)),
{
    let mut system_prompt: Option<String> = None;
    let mut turns: Vec<AnthropicMessage> = Vec::new();
    let ghost all = views(messages@);
    let mut i: usize = 0;
    proof {
        reveal(Seq::filter);
        assert(all.take(0) =~= Seq::<ChatMessageView>::empty());
        assert(system_parts(all.take(0)) =~= Seq::<Seq<char>>::empty());
        assert(turns_of(all.take(0)) =~= Seq::<AnthropicMessageView>::empty());
        assert(views(turns@) =~= Seq::<AnthropicMessageView>::empty());
    }
    while i < messages.len()
        invariant
            i <= messages.len(),
            all == views(messages@),
            prompt_view(system_prompt) == system_prompt_of(all.take(i as int)),
            views(turns@) == turns_of(all.take(i as int)),
        decreases messages.len() - i,
    {
        let message = &messages[i];
        let ghost head = all.take(i as int);
        proof {
            assert(all.take(i + 1) =~= head.push(message@));
            lemma_convert_step(head, message@);
        }
        if same_text(message.role.as_str(), "system") {
            system_prompt =
            match system_prompt {
                Some(existing) => {
                    let longer = existing.concat("\n\n").concat(message.content.as_str());
                    proof {
                        let parts = system_parts(head).push(message@.content);
                        assert(parts.drop_last() =~= system_parts(head));
                        if system_parts(head).len() == 1 {
                            assert(joined(system_parts(head), prompt_separator()) == system_parts(
                                head,
                            )[0]);
                        }
                    }
                    Some(longer)
                },
                None => {
                    Some(message.content.clone())
                },
            };
        } else {
            let ghost before = views(turns@);
            turns.push(
                AnthropicMessage { role: message.role.clone(), content: message.content.clone() },
            );
            proof {
                assert(views(turns@) =~= before.push(
                    AnthropicMessageView { role: message@.role, content: message@.content },
                ));
            }
        }
        i = i + 1;
    }
    proof {
        assert(all.take(messages.len() as int) =~= all);
    }
    (system_prompt, turns)
}

/// How many tokens a completion may have where the caller sets no bound.
pub const DEFAULT_MAX_TOKENS: u32 = 2048;

/// The bound on the tokens of a completion: the caller's, or the default.
pub fn max_tokens_or_default(max_tokens: Option<u32>) -> (bound: u32)
    ensures
        bound == match max_tokens {
            Some(given) => given,
            None => DEFAULT_MAX_TOKENS,
        },
{
    match max_tokens {
        Some(given) => given,
        None => DEFAULT_MAX_TOKENS,
    }
}

/// One block of a response: its type and, for a text block, its text.
#[derive(Debug, Clone)]
pub struct ContentBlock {
    pub content_type: String,
    pub text: Option<String>,
}

/// The plain value of a `ContentBlock`.
pub ghost struct ContentBlockView {
    pub content_type: Seq<char>,
    pub text: Option<Seq<char>>,
}

impl View for ContentBlock {
    type V = ContentBlockView;

    open spec fn view(&self) -> ContentBlockView {
        ContentBlockView { content_type: self.content_type@, text: text_view(self.text) }
    }
}

/// What the provider reports of a failed request.
#[derive(Debug, Clone)]
pub struct ErrorDetails {
    pub message: String,
    pub error_type: String,
}

/// The condition of being a text block.
pub open spec fn is_text_block() -> spec_fn(ContentBlockView) -> bool {
    |block: ContentBlockView| block.content_type == "text"@
}

/// The text of a response: that of its first text block, if it has one and
/// the block holds a text.
pub open spec fn response_text(blocks: Seq<ContentBlockView>) -> Option<Seq<char>> {
    match first_index(blocks, is_text_block()) {
        Some(at) => blocks[at].text,
        None => None,
    }
}

/// Picks the text blocks of a response.
pub struct TextBlock;

impl Selector<ContentBlock> for TextBlock {
    open spec fn admits(&self) -> spec_fn(ContentBlockView) -> bool {
        is_text_block()
    }

    fn picks(&self, row: &ContentBlock) -> (picked: bool) {
        same_text(row.content_type.as_str(), "text")
    }
}

/// The text of a response, if it has any.
pub fn first_text(blocks: &Vec<ContentBlock>) -> (text: Option<String>)
    ensures
        text_view(text) == response_text(views(blocks@)),
{
    match position(blocks, &TextBlock) {
        Some(at) => crate::text::copy_text(&blocks[at].text),
        None => None,
    }
}

/// Why a request that the provider answered yields no completion.
#[derive(Debug, Clone, Copy, PartialEq, Eq, Structural)]
pub enum CompletionFailure {
    /// The response has no text block, or its first text block holds no
    /// text.
    NoTextContent,
}

/// The outcome of a completion whose request succeeded: the text of the
/// response, or the failure to find any. Only the first text block counts:
/// where it holds no text, later blocks are not consulted.
pub fn completion_text(blocks: &Vec<ContentBlock>) -> (outcome: Result<String, CompletionFailure>)
    ensures
        match outcome {
            Ok(text) => response_text(views(blocks@)) == Some(text@),
            Err(failure) => response_text(views(blocks@)).is_none() && failure
                == CompletionFailure::NoTextContent,
        },
{
    match first_text(blocks) {
        Some(text) => Ok(text),
        None => Err(CompletionFailure::NoTextContent),
    }
}

/// The report of a request that the provider refused, with its status
/// written out: the provider's own error type and message where the body
/// held them, and the body as it came where not.
pub open spec fn refusal_message(
    status: Seq<char>,
    body: Seq<char>,
    details: Option<(Seq<char>, Seq<char>)>,
) -> Seq<char> {
    match details {
        Some((error_type, message)) => "Anthropic API error ("@ + status + "): "@ + error_type
            + " - "@ + message,
        None => "Anthropic API error ("@ + status + "): "@ + body,
    }
}

/// The report of a key that failed validation: a refused key and a rate
/// limit are named as such; any other failure is reported with the
/// provider's own error type and message where the body held them, and
/// with the status and the body where not.
pub open spec fn validation_message(
    status_code: u16,
    status: Seq<char>,
    body: Seq<char>,
    details: Option<(Seq<char>, Seq<char>)>,
) -> Seq<char> {
    if status_code == 401 {
        "Invalid Anthropic API key"@
    } else if status_code == 429 {
        "Rate limited - too many requests"@
    } else {
        match details {
            Some((error_type, message)) => error_type + ": "@ + message,
            None => "Anthropic API error ("@ + status + "): "@ + body,
        }
    }
}

/// The error type and message of a failure report, as plain values.
pub open spec fn details_view(details: Option<&ErrorDetails>) -> Option<(Seq<char>, Seq<char>)> {
    match details {
        Some(d) => Some((d.error_type@, d.message@)),
        None => None,
    }
}

/// Whether a status stands for success: the codes from 200 to 299.
pub open spec fn is_success(status_code: u16) -> bool {
    200 <= status_code <= 299
}

/// Decides whether a status stands for success.
pub fn status_is_success(status_code: u16) -> (ok: bool)
    ensures
        ok == is_success(status_code),
{
    200 <= status_code && status_code <= 299
}

/// Words the report of a request that the provider refused.
pub fn completion_error_message(status: &str, body: &str, details: Option<&ErrorDetails>) -> (message:
    String)
    ensures
        message@ == refusal_message(status@, body@, details_view(details)),
{
    let opening = "Anthropic API error (".to_owned().concat(status).concat("): ");
    match details {
        Some(d) => opening.concat(d.error_type.as_str()).concat(" - ").concat(d.message.as_str()),
        None => opening.concat(body),
    }
}

/// Words the report of a key that failed validation.
pub fn validation_error_message(
    status_code: u16,
    status: &str,
    body: &str,
    details: Option<&ErrorDetails>,
) -> (message: String)
    ensures
        message@ == validation_message(status_code, status@, body@, details_view(details)),
{
    if status_code == 401 {
        "Invalid Anthropic API key".to_owned()
    } else if status_code == 429 {
        "Rate limited - too many requests".to_owned()
    } else {
        match details {
            Some(d) => d.error_type.clone().concat(": ").concat(d.message.as_str()),
            None => "Anthropic API error (".to_owned().concat(status).concat("): ").concat(body),
        }
    }
}

/// The outcome of validating a key, from the response to the probe: the key
/// is valid exactly when the status stands for success, and otherwise the
/// failure is reported. The outcome is never a key found invalid without a
/// report.
pub fn validation_outcome(
    status_code: u16,
    status: &str,
    body: &str,
    details: Option<&ErrorDetails>,
) -> (outcome: Result<bool, String>)
    ensures
        match outcome {
            Ok(valid) => valid && is_success(status_code),
            Err(message) => !is_success(status_code) && message@ == validation_message(
                status_code,
                status@,
                body@,
                details_view(details),
            ),
        },
{
    if status_is_success(status_code) {
        Ok(true)
    } else {
        Err(validation_error_message(status_code, status, body, details))
    }
}

} // verus!
