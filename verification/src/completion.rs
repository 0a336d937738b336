//! What the subscription's backend wants of a request for a completion.

use crate::chatgpt_model::ChatGptModel;
use crate::responses::{Header, ReasoningEffort};
use crate::subscription::CodexCredentials;
use crate::text;
use vstd::prelude::*;

verus! {

/// How a conversation becomes a request.
#[derive(Debug, PartialEq, Eq)]
pub struct ConversionOptions {
    pub model_id: &'static str,
    pub supports_parallel_tool_calls: bool,
    pub supports_prompt_cache_key: bool,
    /// The backend takes no limit.
    pub max_output_tokens: Option<u64>,
    pub reasoning_effort: Option<ReasoningEffort>,
}

/// How a conversation with the model becomes a request.
pub fn conversion_options(model: &ChatGptModel) -> (options: ConversionOptions)
    ensures
        options.model_id@ == model.id_text(),
        options.supports_parallel_tool_calls,
        !options.supports_prompt_cache_key,
        options.max_output_tokens is None,
        options.reasoning_effort == model.effort(),
{
    ConversionOptions {
        model_id: model.id(),
        supports_parallel_tool_calls: true,
        supports_prompt_cache_key: false,
        max_output_tokens: None,
        reasoning_effort: model.reasoning_effort(),
    }
}

/// Who speaks in a message.
#[derive(Clone, Copy, Debug, PartialEq, Eq, Structural)]
pub enum Role {
    User,
    Assistant,
    System,
    Tool,
}

/// A part of a message. What is not text is the caller's business.
#[derive(Debug, PartialEq, Eq)]
pub enum MessagePart<T> {
    Text(String),
    Other(T),
}

/// A piece of the conversation. What is not a message is the caller's business.
#[derive(Debug, PartialEq, Eq)]
pub enum ConversationItem<T> {
    Message { role: Role, content: Vec<MessagePart<T>> },
    Other(T),
}

/// A request for a completion.
#[derive(Debug, PartialEq, Eq)]
pub struct CompletionRequest<T> {
    pub input: Vec<ConversationItem<T>>,
    pub instructions: Option<String>,
    pub store: Option<bool>,
    pub max_output_tokens: Option<u64>,
}

impl<T> ConversationItem<T> {
    /// Whether the item is a message of the system.
    pub open spec fn is_system(self) -> bool {
        self matches ConversationItem::Message { role, .. } && role is System
    }
}

/// The texts among parts of a message.
pub open spec fn part_texts<T>(content: Seq<MessagePart<T>>) -> Seq<Seq<char>>
    decreases content.len(),
{
    if content.len() == 0 {
        Seq::empty()
    } else {
        match content.last() {
            MessagePart::Text(text) => part_texts(content.drop_last()).push(text@),
            MessagePart::Other(_) => part_texts(content.drop_last()),
        }
    }
}

/// The texts in the messages of the system.
pub open spec fn system_texts<T>(input: Seq<ConversationItem<T>>) -> Seq<Seq<char>>
    decreases input.len(),
{
    if input.len() == 0 {
        Seq::empty()
    } else {
        let others = system_texts(input.drop_last());
        match input.last() {
            ConversationItem::Message { role: Role::System, content } => others + part_texts(
                content@,
            ),
            _ => others,
        }
    }
}

/// The conversation without the messages of the system.
pub open spec fn conversation<T>(input: Seq<ConversationItem<T>>) -> Seq<ConversationItem<T>>
    decreases input.len(),
{
    if input.len() == 0 {
        Seq::empty()
    } else if input.last().is_system() {
        conversation(input.drop_last())
    } else {
        conversation(input.drop_last()).push(input.last())
    }
}

fn push_part_texts<T>(texts: &mut Vec<String>, content: &Vec<MessagePart<T>>)
    ensures
        text::texts(final(texts)@) == text::texts(old(texts)@) + part_texts(content@),
{
    let ghost before = text::texts(texts@);
    let mut at: usize = 0;
    assert(content@.take(0) =~= Seq::empty());
    assert(text::texts(texts@) =~= before + part_texts(content@.take(0)));
    while at < content.len()
        invariant
            at <= content@.len(),
            text::texts(texts@) == before + part_texts(content@.take(at as int)),
        decreases content@.len() - at,
    {
        let ghost so_far = texts@;
        assert(content@.take(at + 1).drop_last() =~= content@.take(at as int));
        if let MessagePart::Text(part) = &content[at] {
            texts.push(part.clone());
            assert(text::texts(texts@) =~= text::texts(so_far).push(part@));
        }
        at = at + 1;
        assert(text::texts(texts@) =~= before + part_texts(content@.take(at as int)));
    }
    assert(content@.take(at as int) =~= content@);
}

/// The request as the backend wants it: nothing is stored, the length of the answer is not
/// limited, and what the system says is in the instructions rather than in the conversation.
pub fn prepare_request<T>(request: CompletionRequest<T>) -> (prepared: CompletionRequest<T>)
    ensures
        prepared.input@ == conversation(request.input@),
        prepared.store == Some(false),
        prepared.max_output_tokens is None,
        system_texts(request.input@).len() == 0 ==> prepared.instructions == request.instructions,
        system_texts(request.input@).len() > 0 ==> prepared.instructions is Some
            && prepared.instructions->0@ == text::join(system_texts(request.input@), "\n\n"@),
{
    let mut left = request.input;
    let ghost all = request.input@;
    let mut input: Vec<ConversationItem<T>> = Vec::new();
    let mut instructions: Vec<String> = Vec::new();
    let ghost mut done: int = 0;
    assert(all.take(0) =~= Seq::empty());
    assert(all.skip(0) =~= all);
    assert(text::texts(instructions@) =~= Seq::empty());
    while left.len() > 0
        invariant
            0 <= done <= all.len(),
            left@ == all.skip(done),
            input@ == conversation(all.take(done)),
            text::texts(instructions@) == system_texts(all.take(done)),
        decreases left@.len(),
    {
        let item = left.remove(0);
        proof {
            assert(item == all[done]);
            assert(left@ =~= all.skip(done + 1));
            assert(all.take(done + 1).drop_last() =~= all.take(done));
        }
        match item {
            ConversationItem::Message { role: Role::System, content } => {
                push_part_texts(&mut instructions, &content);
            },
            other => {
                input.push(other);
            },
        }
        proof {
            done = done + 1;
        }
    }
    assert(all.take(done) =~= all);
    assert(text::texts(instructions@).len() == instructions@.len());
    let instructions = if instructions.len() > 0 {
        Some(text::join_texts(&instructions, "\n\n"))
    } else {
        request.instructions
    };
    CompletionRequest { input, instructions, store: Some(false), max_output_tokens: None }
}

proof fn conversation_has_no_system<T>(input: Seq<ConversationItem<T>>)
    ensures
        forall|i: int|
            0 <= i < conversation(input).len() ==> !(#[trigger] conversation(input)[i]).is_system(),
        forall|i: int|
            0 <= i < input.len() && !(#[trigger] input[i]).is_system() ==> conversation(
                input,
            ).contains(input[i]),
    decreases input.len(),
{
    if input.len() > 0 {
        let front = input.drop_last();
        conversation_has_no_system(front);
        assert forall|i: int|
            0 <= i < input.len() && !(#[trigger] input[i]).is_system() implies conversation(
            input,
        ).contains(input[i]) by {
            let shorter = conversation(front);
            if i == input.len() - 1 {
                assert(conversation(input)[shorter.len() as int] == input[i]);
            } else {
                assert(front[i] == input[i]);
                let j = choose|j: int| 0 <= j < shorter.len() && shorter[j] == input[i];
                assert(conversation(input)[j] == input[i]);
            }
        }
    }
}

/// The backend is never sent a message of the system within the conversation, and loses nothing
/// else of it.
pub proof fn prepared_conversation_is_complete<T>(input: Seq<ConversationItem<T>>)
    ensures
        forall|i: int|
            0 <= i < conversation(input).len() ==> !(#[trigger] conversation(input)[i]).is_system(),
        forall|i: int|
            0 <= i < input.len() && !(#[trigger] input[i]).is_system() ==> conversation(
                input,
            ).contains(input[i]),
        conversation(conversation(input)) == conversation(input),
{
    conversation_has_no_system(input);
    conversation_without_system(conversation(input));
}

proof fn conversation_without_system<T>(input: Seq<ConversationItem<T>>)
    requires
        forall|i: int| 0 <= i < input.len() ==> !(#[trigger] input[i]).is_system(),
    ensures
        conversation(input) == input,
    decreases input.len(),
{
    if input.len() > 0 {
        let front = input.drop_last();
        assert(forall|i: int| 0 <= i < front.len() ==> front[i] == input[i]);
        conversation_without_system(front);
        assert(!input[input.len() - 1].is_system());
        assert(front.push(input.last()) =~= input);
    } else {
        assert(conversation(input) =~= input);
    }
}

/// What a header says.
pub open spec fn header_text(header: Header) -> (Seq<char>, Seq<char>) {
    (header.name@, header.value@)
}

/// The headers that go with every request, and the one that names the account where it is known.
pub open spec fn headers_for(credentials: CodexCredentials) -> Seq<(Seq<char>, Seq<char>)> {
    let always = seq![
        ("originator"@, "zed"@),
        ("OpenAI-Beta"@, "responses=experimental"@),
    ];
    match credentials.account_id {
        Some(id) if id@.len() > 0 => always.push(("ChatGPT-Account-Id"@, id@)),
        _ => always,
    }
}

fn header(name: &str, value: &str) -> (header: Header)
    ensures
        header_text(header) == (name@, value@),
{
    Header { name: name.to_owned(), value: value.to_owned() }
}

/// The headers that go with a request.
pub fn extra_headers(credentials: &CodexCredentials) -> (headers: Vec<Header>)
    ensures
        headers@.len() == headers_for(*credentials).len(),
        forall|i: int|
            0 <= i < headers@.len() ==> #[trigger] header_text(headers@[i]) == headers_for(
                *credentials,
            )[i],
{
    let mut headers: Vec<Header> = Vec::new();
    headers.push(header("originator", "zed"));
    headers.push(header("OpenAI-Beta", "responses=experimental"));
    if let Some(id) = &credentials.account_id {
        if !id.as_str().is_empty() {
            headers.push(header("ChatGPT-Account-Id", id.as_str()));
        }
    }
    headers
}

/// Messages of the system go into the instructions, with all their texts, and everything else
/// stays in the conversation.
pub proof fn system_messages_become_instructions<T>(
    item: ConversationItem<T>,
    text: String,
    other: T,
)
    ensures
        match item {
            ConversationItem::Message { role: Role::System, content } => system_texts(seq![item])
                == part_texts(content@) && conversation(seq![item]).len() == 0,
            _ => system_texts(seq![item]).len() == 0 && conversation(seq![item]) == seq![item],
        },
        part_texts(seq![MessagePart::<T>::Text(text)]) == seq![text@],
        part_texts(seq![MessagePart::Other(other)]).len() == 0,
{
    let one = seq![item];
    assert(one.drop_last() =~= Seq::empty());
    assert(system_texts(one.drop_last()) =~= Seq::empty());
    assert(conversation(one.drop_last()) =~= Seq::empty());
    if let ConversationItem::Message { role: Role::System, content } = item {
        assert(system_texts(one) =~= part_texts(content@));
    } else {
        assert(conversation(one) =~= one);
    }
    let said = seq![MessagePart::<T>::Text(text)];
    assert(said.drop_last() =~= Seq::empty());
    assert(part_texts(said.drop_last()) =~= Seq::empty());
    let silent = seq![MessagePart::Other(other)];
    assert(silent.drop_last() =~= Seq::empty());
    assert(part_texts(silent.drop_last()) =~= Seq::empty());
}

/// What is taken from a conversation comes in its order, each message for itself.
pub proof fn conversations_go_on<T>(
    before: Seq<ConversationItem<T>>,
    after: Seq<ConversationItem<T>>,
)
    ensures
        conversation(before + after) == conversation(before) + conversation(after),
        system_texts(before + after) == system_texts(before) + system_texts(after),
    decreases after.len(),
{
    if after.len() == 0 {
        assert(before + after =~= before);
        assert(conversation(after) =~= Seq::empty());
        assert(system_texts(after) =~= Seq::empty());
    } else {
        assert((before + after).drop_last() =~= before + after.drop_last());
        conversations_go_on(before, after.drop_last());
    }
    assert(conversation(before + after) =~= conversation(before) + conversation(after));
    assert(system_texts(before + after) =~= system_texts(before) + system_texts(after));
}

/// The texts of a message come in their order.
pub proof fn parts_go_on<T>(before: Seq<MessagePart<T>>, after: Seq<MessagePart<T>>)
    ensures
        part_texts(before + after) == part_texts(before) + part_texts(after),
    decreases after.len(),
{
    if after.len() == 0 {
        assert(before + after =~= before);
        assert(part_texts(after) =~= Seq::empty());
    } else {
        assert((before + after).drop_last() =~= before + after.drop_last());
        parts_go_on(before, after.drop_last());
    }
    assert(part_texts(before + after) =~= part_texts(before) + part_texts(after));
}

/// Every request says where it comes from and what it makes use of. The account is named exactly
/// where one is known, and an empty name is none.
pub proof fn account_is_named_where_known(credentials: CodexCredentials, value: Seq<char>)
    ensures
        headers_for(credentials).contains(("originator"@, "zed"@)),
        headers_for(credentials).contains(("OpenAI-Beta"@, "responses=experimental"@)),
        headers_for(credentials).contains(("ChatGPT-Account-Id"@, value)) == (
        credentials.account_id matches Some(id) && id@ == value && value.len() > 0),
        headers_for(credentials).len() <= 3,
{
    reveal_strlit("originator");
    reveal_strlit("OpenAI-Beta");
    reveal_strlit("ChatGPT-Account-Id");
    let headers = headers_for(credentials);
    assert(headers[0] == ("originator"@, "zed"@));
    assert(headers[1] == ("OpenAI-Beta"@, "responses=experimental"@));
    assert("originator"@.len() != "ChatGPT-Account-Id"@.len());
    assert("OpenAI-Beta"@.len() != "ChatGPT-Account-Id"@.len());
    if headers.len() == 3 {
        assert(headers[2].1 == credentials.account_id->0@);
    }
}

} // verus!
