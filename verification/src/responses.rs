//! Requests to a chat service and its responses, streamed or not.

use crate::text;
use vstd::prelude::*;

verus! {

/// How hard the model should think.
#[derive(Clone, Copy, Debug, PartialEq, Eq, Structural)]
pub enum ReasoningEffort {
    Low,
    Medium,
    High,
}

/// A number between zero and two, by the bits of its single precision form.
#[derive(Clone, Copy, Debug, PartialEq, Eq, Structural)]
pub struct Temperature {
    pub bits: u32,
}

/// What the model is asked.
#[derive(Debug)]
pub struct Request {
    pub model: String,
    pub input: Vec<ResponseInputItem>,
    pub stream: bool,
    pub temperature: Option<Temperature>,
    pub tools: Vec<ToolDefinition>,
    pub tool_choice: Option<ToolChoice>,
    pub reasoning: Option<ReasoningConfig>,
    /// What the response should hold besides the answer.
    pub includables: Option<Vec<ResponseIncludable>>,
    pub store: bool,
}

#[derive(Clone, Copy, Debug, PartialEq, Eq, Structural)]
pub enum ResponseIncludable {
    ReasoningEncryptedContent,
}

/// A tool that the model may use.
#[derive(Debug, PartialEq, Eq)]
pub enum ToolDefinition {
    Function {
        name: String,
        description: Option<String>,
        /// A schema of the parameters, as JSON.
        parameters: Option<String>,
        strict: Option<bool>,
    },
}

/// Whether the model has to use a tool.
#[derive(Debug, PartialEq, Eq)]
pub enum ToolChoice {
    Auto,
    Required,
    /// The model may use none.
    Never,
    Other(ToolDefinition),
}

#[derive(Clone, Copy, Debug, PartialEq, Eq, Structural)]
pub enum ReasoningSummary {
    Auto,
    Concise,
    Detailed,
}

#[derive(Clone, Copy, Debug, PartialEq, Eq, Structural)]
pub struct ReasoningConfig {
    pub effort: ReasoningEffort,
    pub summary: Option<ReasoningSummary>,
}

#[derive(Clone, Copy, Debug, PartialEq, Eq, Structural)]
pub enum ResponseImageDetail {
    Low,
    High,
    Auto,
}

impl Default for ResponseImageDetail {
    fn default() -> (detail: Self)
        ensures
            detail is Auto,
    {
        ResponseImageDetail::Auto
    }
}

/// A part of a message to the model.
#[derive(Debug, PartialEq, Eq)]
pub enum ResponseInputContent {
    InputText { text: String },
    OutputText { text: String },
    InputImage { image_url: Option<String>, detail: ResponseImageDetail },
}

#[derive(Clone, Copy, Debug, PartialEq, Eq, Structural)]
pub enum ItemStatus {
    InProgress,
    Completed,
    Incomplete,
}

/// What a tool gave back.
#[derive(Debug, PartialEq, Eq)]
pub enum ResponseFunctionOutput {
    Text(String),
    Content(Vec<ResponseInputContent>),
}

/// A piece of the conversation that the model is to continue.
#[allow(inconsistent_fields)]
#[derive(Debug, PartialEq, Eq)]
pub enum ResponseInputItem {
    Message {
        role: String,
        content: Option<Vec<ResponseInputContent>>,
        status: Option<String>,
    },
    FunctionCall {
        call_id: String,
        name: String,
        arguments: String,
        status: Option<ItemStatus>,
        thought_signature: Option<String>,
    },
    FunctionCallOutput {
        call_id: String,
        output: ResponseFunctionOutput,
        status: Option<ItemStatus>,
    },
    Reasoning {
        id: Option<String>,
        summary: Vec<ResponseReasoningItem>,
        encrypted_content: String,
    },
}

#[derive(Clone, Copy, Debug, PartialEq, Eq, Structural)]
pub enum IncompleteReason {
    MaxOutputTokens,
    ContentFilter,
    Unknown,
}

#[derive(Clone, Copy, Debug, PartialEq, Eq, Structural)]
pub struct IncompleteDetails {
    pub reason: Option<IncompleteReason>,
}

#[derive(Debug, PartialEq, Eq)]
pub struct ResponseReasoningItem {
    pub kind: String,
    pub text: String,
}

/// Something that happened while the model answered.
#[derive(Debug, PartialEq, Eq)]
pub enum StreamEvent {
    GenericError { error: ResponseError },
    Created { response: Response },
    OutputItemAdded {
        output_index: usize,
        sequence_number: Option<u64>,
        item: ResponseOutputItem,
    },
    OutputTextDelta { item_id: String, output_index: usize, delta: String },
    OutputItemDone {
        output_index: usize,
        sequence_number: Option<u64>,
        item: ResponseOutputItem,
    },
    Incomplete { response: Response },
    Completed { response: Response },
    Failed { response: Response },
    Unknown,
}

#[derive(Debug, PartialEq, Eq)]
pub struct ResponseError {
    pub code: String,
    pub message: String,
}

/// The model's answer.
#[derive(Debug, PartialEq, Eq)]
pub struct Response {
    pub id: Option<String>,
    pub status: Option<String>,
    pub usage: Option<ResponseUsage>,
    pub output: Vec<ResponseOutputItem>,
    pub incomplete_details: Option<IncompleteDetails>,
    pub error: Option<ResponseError>,
}

#[derive(Clone, Copy, Debug, PartialEq, Eq, Structural)]
pub struct ResponseUsage {
    pub input_tokens: Option<u64>,
    pub output_tokens: Option<u64>,
    pub total_tokens: Option<u64>,
}

/// A piece of the model's answer.
#[allow(inconsistent_fields)]
#[derive(Debug, PartialEq, Eq)]
pub enum ResponseOutputItem {
    Message { id: String, role: String, content: Option<Vec<ResponseOutputContent>> },
    FunctionCall {
        id: Option<String>,
        call_id: String,
        name: String,
        arguments: String,
        status: Option<ItemStatus>,
        thought_signature: Option<String>,
    },
    Reasoning {
        id: String,
        summary: Option<Vec<ResponseReasoningItem>>,
        encrypted_content: Option<String>,
    },
}

/// A part of a message from the model.
#[derive(Debug, PartialEq, Eq)]
pub enum ResponseOutputContent {
    OutputText { text: String },
    Refusal { refusal: String },
}

impl Default for ResponseUsage {
    fn default() -> (usage: Self)
        ensures
            usage == (ResponseUsage { input_tokens: None, output_tokens: None, total_tokens: None }),
    {
        ResponseUsage { input_tokens: None, output_tokens: None, total_tokens: None }
    }
}

/// What a [`ResponseOutputItem`] says.
#[allow(inconsistent_fields)]
pub enum OutputItemView {
    Message { id: String, role: String, content: Option<Seq<ResponseOutputContent>> },
    FunctionCall {
        id: Option<String>,
        call_id: String,
        name: String,
        arguments: String,
        status: Option<ItemStatus>,
        thought_signature: Option<String>,
    },
    Reasoning {
        id: String,
        summary: Option<Seq<ResponseReasoningItem>>,
        encrypted_content: Option<String>,
    },
}

/// What an optional list holds.
pub open spec fn optional_list<T>(list: Option<Vec<T>>) -> Option<Seq<T>> {
    match list {
        Some(list) => Some(list@),
        None => None,
    }
}

impl View for ResponseOutputItem {
    type V = OutputItemView;

    open spec fn view(&self) -> OutputItemView {
        match *self {
            ResponseOutputItem::Message { id, role, content } => OutputItemView::Message {
                id,
                role,
                content: optional_list(content),
            },
            ResponseOutputItem::FunctionCall {
                id,
                call_id,
                name,
                arguments,
                status,
                thought_signature,
            } => OutputItemView::FunctionCall {
                id,
                call_id,
                name,
                arguments,
                status,
                thought_signature,
            },
            ResponseOutputItem::Reasoning { id, summary, encrypted_content } =>
                OutputItemView::Reasoning {
                    id,
                    summary: optional_list(summary),
                    encrypted_content,
                },
        }
    }
}

/// What a [`Response`] says.
pub struct ResponseView {
    pub id: Option<String>,
    pub status: Option<String>,
    pub usage: Option<ResponseUsage>,
    pub output: Seq<OutputItemView>,
    pub incomplete_details: Option<IncompleteDetails>,
    pub error: Option<ResponseError>,
}

/// What the items of an answer say.
pub open spec fn items(output: Seq<ResponseOutputItem>) -> Seq<OutputItemView> {
    Seq::new(output.len(), |i: int| output[i]@)
}

impl View for Response {
    type V = ResponseView;

    open spec fn view(&self) -> ResponseView {
        ResponseView {
            id: self.id,
            status: self.status,
            usage: self.usage,
            output: items(self.output@),
            incomplete_details: self.incomplete_details,
            error: self.error,
        }
    }
}

/// What a [`StreamEvent`] says.
pub enum StreamEventView {
    GenericError { error: ResponseError },
    Created { response: ResponseView },
    OutputItemAdded {
        output_index: int,
        sequence_number: Option<u64>,
        item: OutputItemView,
    },
    OutputTextDelta { item_id: String, output_index: int, delta: String },
    OutputItemDone { output_index: int, sequence_number: Option<u64>, item: OutputItemView },
    Incomplete { response: ResponseView },
    Completed { response: ResponseView },
    Failed { response: ResponseView },
    Unknown,
}

impl View for StreamEvent {
    type V = StreamEventView;

    open spec fn view(&self) -> StreamEventView {
        match *self {
            StreamEvent::GenericError { error } => StreamEventView::GenericError { error },
            StreamEvent::Created { response } => StreamEventView::Created { response: response@ },
            StreamEvent::OutputItemAdded { output_index, sequence_number, item } =>
                StreamEventView::OutputItemAdded {
                    output_index: output_index as int,
                    sequence_number,
                    item: item@,
                },
            StreamEvent::OutputTextDelta { item_id, output_index, delta } =>
                StreamEventView::OutputTextDelta {
                    item_id,
                    output_index: output_index as int,
                    delta,
                },
            StreamEvent::OutputItemDone { output_index, sequence_number, item } =>
                StreamEventView::OutputItemDone {
                    output_index: output_index as int,
                    sequence_number,
                    item: item@,
                },
            StreamEvent::Incomplete { response } => StreamEventView::Incomplete {
                response: response@,
            },
            StreamEvent::Completed { response } => StreamEventView::Completed {
                response: response@,
            },
            StreamEvent::Failed { response } => StreamEventView::Failed { response: response@ },
            StreamEvent::Unknown => StreamEventView::Unknown,
        }
    }
}

/// What the events of a stream say.
pub open spec fn events(stream: Seq<StreamEvent>) -> Seq<StreamEventView> {
    Seq::new(stream.len(), |i: int| stream[i]@)
}

impl Clone for ResponseOutputContent {
    fn clone(&self) -> (copy: Self)
        ensures
            copy == *self,
    {
        match self {
            ResponseOutputContent::OutputText { text } => ResponseOutputContent::OutputText {
                text: text.clone(),
            },
            ResponseOutputContent::Refusal { refusal } => ResponseOutputContent::Refusal {
                refusal: refusal.clone(),
            },
        }
    }
}

impl Clone for ResponseReasoningItem {
    fn clone(&self) -> (copy: Self)
        ensures
            copy == *self,
    {
        ResponseReasoningItem { kind: self.kind.clone(), text: self.text.clone() }
    }
}

impl Clone for ResponseError {
    fn clone(&self) -> (copy: Self)
        ensures
            copy == *self,
    {
        ResponseError { code: self.code.clone(), message: self.message.clone() }
    }
}

fn copied_content(content: &Option<Vec<ResponseOutputContent>>) -> (copy: Option<
    Vec<ResponseOutputContent>,
>)
    ensures
        optional_list(copy) == optional_list(*content),
{
    match content {
        None => None,
        Some(content) => {
            let mut copy: Vec<ResponseOutputContent> = Vec::new();
            let mut at: usize = 0;
            while at < content.len()
                invariant
                    at <= content@.len(),
                    copy@ == content@.take(at as int),
                decreases content@.len() - at,
            {
                copy.push(content[at].clone());
                at = at + 1;
                assert(copy@ =~= content@.take(at as int));
            }
            assert(content@.take(at as int) =~= content@);
            Some(copy)
        },
    }
}

fn copied_summary(summary: &Option<Vec<ResponseReasoningItem>>) -> (copy: Option<
    Vec<ResponseReasoningItem>,
>)
    ensures
        optional_list(copy) == optional_list(*summary),
{
    match summary {
        None => None,
        Some(summary) => {
            let mut copy: Vec<ResponseReasoningItem> = Vec::new();
            let mut at: usize = 0;
            while at < summary.len()
                invariant
                    at <= summary@.len(),
                    copy@ == summary@.take(at as int),
                decreases summary@.len() - at,
            {
                copy.push(summary[at].clone());
                at = at + 1;
                assert(copy@ =~= summary@.take(at as int));
            }
            assert(summary@.take(at as int) =~= summary@);
            Some(copy)
        },
    }
}

impl Clone for ResponseOutputItem {
    fn clone(&self) -> (copy: Self)
        ensures
            copy@ == self@,
    {
        match self {
            ResponseOutputItem::Message { id, role, content } => ResponseOutputItem::Message {
                id: id.clone(),
                role: role.clone(),
                content: copied_content(content),
            },
            ResponseOutputItem::FunctionCall {
                id,
                call_id,
                name,
                arguments,
                status,
                thought_signature,
            } => ResponseOutputItem::FunctionCall {
                id: text::copied(id),
                call_id: call_id.clone(),
                name: name.clone(),
                arguments: arguments.clone(),
                status: *status,
                thought_signature: text::copied(thought_signature),
            },
            ResponseOutputItem::Reasoning { id, summary, encrypted_content } =>
                ResponseOutputItem::Reasoning {
                    id: id.clone(),
                    summary: copied_summary(summary),
                    encrypted_content: text::copied(encrypted_content),
                },
        }
    }
}

impl Clone for Response {
    fn clone(&self) -> (copy: Self)
        ensures
            copy@ == self@,
    {
        let mut output: Vec<ResponseOutputItem> = Vec::new();
        let mut at: usize = 0;
        while at < self.output.len()
            invariant
                at <= self.output@.len(),
                items(output@) == items(self.output@).take(at as int),
            decreases self.output@.len() - at,
        {
            let ghost before = output@;
            output.push(self.output[at].clone());
            assert(items(output@) =~= items(before).push(self.output@[at as int]@));
            at = at + 1;
            assert(items(output@) =~= items(self.output@).take(at as int));
        }
        assert(items(self.output@).take(at as int) =~= items(self.output@));
        let error = match &self.error {
            Some(error) => Some(error.clone()),
            None => None,
        };
        Response {
            id: text::copied(&self.id),
            status: text::copied(&self.status),
            usage: self.usage,
            output,
            incomplete_details: self.incomplete_details,
            error,
        }
    }
}

impl Default for Response {
    fn default() -> (response: Self)
        ensures
            response@ == (ResponseView {
                id: None,
                status: None,
                usage: None,
                output: Seq::empty(),
                incomplete_details: None,
                error: None,
            }),
    {
        let response = Response {
            id: None,
            status: None,
            usage: None,
            output: Vec::new(),
            incomplete_details: None,
            error: None,
        };
        assert(response@.output =~= Seq::empty());
        response
    }
}

impl ResponseInputItem {
    /// Whether the item is a message with an image.
    pub open spec fn shows_image(self) -> bool {
        self matches ResponseInputItem::Message { content: Some(parts), .. } && exists|i: int|
            0 <= i < parts@.len() && #[trigger] parts@[i] is InputImage
    }
}

fn has_image(item: &ResponseInputItem) -> (has: bool)
    ensures
        has == item.shows_image(),
{
    match item {
        ResponseInputItem::Message { role: _, content: Some(parts), status: _ } => {
            let mut at: usize = 0;
            while at < parts.len()
                invariant
                    at <= parts@.len(),
                    item.shows_image() == exists|i: int|
                        0 <= i < parts@.len() && #[trigger] parts@[i] is InputImage,
                    forall|i: int| 0 <= i < at ==> !(#[trigger] parts@[i] is InputImage),
                decreases parts@.len() - at,
            {
                if let ResponseInputContent::InputImage { .. } = &parts[at] {
                    assert(parts@[at as int] is InputImage);
                    return true;
                }
                at = at + 1;
            }
            false
        },
        _ => false,
    }
}

/// Whether the model is asked about an image.
pub fn is_vision_request(request: &Request) -> (is_vision: bool)
    ensures
        is_vision == exists|i: int|
            0 <= i < request.input@.len() && (#[trigger] request.input@[i]).shows_image(),
{
    let mut at: usize = 0;
    while at < request.input.len()
        invariant
            at <= request.input@.len(),
            forall|i: int| 0 <= i < at ==> !(#[trigger] request.input@[i]).shows_image(),
        decreases request.input@.len() - at,
    {
        if has_image(&request.input[at]) {
            return true;
        }
        at = at + 1;
    }
    false
}

/// A header of an HTTP request.
#[derive(Debug, PartialEq, Eq)]
pub struct Header {
    pub name: String,
    pub value: String,
}

/// The header that goes with a request about an image, and with no other.
pub fn vision_header(request: &Request) -> (header: Option<Header>)
    ensures
        header is Some == exists|i: int|
            0 <= i < request.input@.len() && (#[trigger] request.input@[i]).shows_image(),
        header matches Some(header) ==> header.name@ == "Copilot-Vision-Request"@ && header.value@
            == "true"@,
{
    if is_vision_request(request) {
        Some(Header { name: "Copilot-Vision-Request".to_owned(), value: "true".to_owned() })
    } else {
        None
    }
}

/// What is reported when the service refuses a request: its status line and what it sent.
pub fn connection_error(status: &str, body: &str) -> (message: String)
    ensures
        message@ == "Failed to connect to API: "@ + status@ + " "@ + body@,
{
    let mut message = text::joined("Failed to connect to API: ", status);
    message.append(" ");
    message.append(body);
    message
}

/// The event that a line of a stream holds, as JSON. A line without the mark of an event, an
/// empty event, and the sign that the stream ends hold none.
pub open spec fn payload(line: Seq<char>) -> Option<Seq<char>> {
    if !text::begins_with(line, "data: "@) {
        None
    } else {
        let rest = line.skip("data: "@.len() as int);
        if text::begins_with(rest, "[DONE]"@) || rest.len() == 0 {
            None
        } else {
            Some(rest)
        }
    }
}

/// The event that a line of a stream holds, as JSON.
pub fn event_payload(line: &str) -> (event: Option<String>)
    ensures
        match event {
            Some(event) => payload(line@) == Some(event@),
            None => payload(line@) is None,
        },
{
    match text::strip_prefix(line, "data: ") {
        None => None,
        Some(rest) => {
            if text::starts_with(rest.as_str(), "[DONE]") || rest.as_str().is_empty() {
                None
            } else {
                Some(rest)
            }
        },
    }
}

/// What comes of a line of a stream: nothing, an event as JSON, or the error of a line that could
/// not be read.
pub fn stream_item(line: Result<String, String>) -> (item: Option<Result<String, String>>)
    ensures
        match line {
            Ok(line) => match payload(line@) {
                Some(event) => item matches Some(Ok(found)) && found@ == event,
                None => item is None,
            },
            Err(error) => item == Some(Err::<String, String>(error)),
        },
{
    match line {
        Ok(line) => match event_payload(line.as_str()) {
            Some(event) => Some(Ok(event)),
            None => None,
        },
        Err(error) => Some(Err(error)),
    }
}

/// What to do with the reply of the service.
#[derive(Clone, Copy, Debug, PartialEq, Eq, Structural)]
pub enum ReplyHandling {
    /// Report its status and what it sent: the request failed.
    Refused,
    /// Read it line by line.
    Lines,
    /// Read it whole, and make a stream of it.
    Whole,
}

/// What to do with the reply to a request.
pub fn stream_response(request: &Request, is_success: bool) -> (handling: ReplyHandling)
    ensures
        handling == (if !is_success {
            ReplyHandling::Refused
        } else if request.stream {
            ReplyHandling::Lines
        } else {
            ReplyHandling::Whole
        }),
{
    if !is_success {
        ReplyHandling::Refused
    } else if request.stream {
        ReplyHandling::Lines
    } else {
        ReplyHandling::Whole
    }
}

/// The text that parts of a message add, one event for each part that is text.
pub open spec fn deltas(id: String, content: Seq<ResponseOutputContent>, index: int) -> Seq<
    StreamEventView,
>
    decreases content.len(),
{
    if content.len() == 0 {
        Seq::empty()
    } else {
        let others = deltas(id, content.drop_last(), index);
        match content.last() {
            ResponseOutputContent::OutputText { text } => others.push(
                StreamEventView::OutputTextDelta { item_id: id, output_index: index, delta: text },
            ),
            ResponseOutputContent::Refusal { .. } => others,
        }
    }
}

/// The text that an item adds.
pub open spec fn item_deltas(item: OutputItemView, index: int) -> Seq<StreamEventView> {
    match item {
        OutputItemView::Message { id, content: Some(content), .. } => deltas(id, content, index),
        _ => Seq::empty(),
    }
}

/// What happens while an item is streamed: it is announced, its text comes, it is complete.
pub open spec fn item_events(item: OutputItemView, index: int) -> Seq<StreamEventView> {
    seq![StreamEventView::OutputItemAdded { output_index: index, sequence_number: None, item }]
        + item_deltas(item, index) + seq![
        StreamEventView::OutputItemDone { output_index: index, sequence_number: None, item },
    ]
}

/// What happens while items are streamed, one item after the other.
pub open spec fn output_events(output: Seq<OutputItemView>) -> Seq<StreamEventView>
    decreases output.len(),
{
    if output.len() == 0 {
        Seq::empty()
    } else {
        output_events(output.drop_last()) + item_events(output.last(), output.len() - 1)
    }
}

/// How the stream of a response ends.
pub open spec fn final_event(response: ResponseView) -> StreamEventView {
    if response.error is Some {
        StreamEventView::Failed { response }
    } else if response.incomplete_details is Some {
        StreamEventView::Incomplete { response }
    } else {
        StreamEventView::Completed { response }
    }
}

/// The stream that says the same as a response that came in one piece.
pub open spec fn simulated(response: ResponseView) -> Seq<StreamEventView> {
    seq![StreamEventView::Created { response }] + output_events(response.output) + seq![
        final_event(response),
    ]
}

fn push_deltas(
    all: &mut Vec<StreamEvent>,
    id: &String,
    content: &Vec<ResponseOutputContent>,
    output_index: usize,
)
    ensures
        events(final(all)@) == events(old(all)@) + deltas(*id, content@, output_index as int),
{
    let ghost before = events(all@);
    let mut at: usize = 0;
    assert(content@.take(0) =~= Seq::empty());
    assert(events(all@) =~= before + deltas(*id, content@.take(0), output_index as int));
    while at < content.len()
        invariant
            at <= content@.len(),
            events(all@) == before + deltas(*id, content@.take(at as int), output_index as int),
        decreases content@.len() - at,
    {
        let ghost so_far = all@;
        assert(content@.take(at + 1).drop_last() =~= content@.take(at as int));
        if let ResponseOutputContent::OutputText { text } = &content[at] {
            let event = StreamEvent::OutputTextDelta {
                item_id: id.clone(),
                output_index,
                delta: text.clone(),
            };
            all.push(event);
            assert(events(all@) =~= events(so_far).push(event@));
        }
        at = at + 1;
        assert(events(all@) =~= before + deltas(
            *id,
            content@.take(at as int),
            output_index as int,
        ));
    }
    assert(content@.take(at as int) =~= content@);
}

fn push_item_events(all: &mut Vec<StreamEvent>, item: &ResponseOutputItem, output_index: usize)
    ensures
        events(final(all)@) == events(old(all)@) + item_events(item@, output_index as int),
{
    let ghost before = all@;
    let added = StreamEvent::OutputItemAdded {
        output_index,
        sequence_number: None,
        item: item.clone(),
    };
    all.push(added);
    let ghost announced = all@;
    assert(events(announced) =~= events(before).push(added@));
    if let ResponseOutputItem::Message { id, role: _, content: Some(content) } = item {
        push_deltas(all, id, content, output_index);
    }
    assert(events(all@) =~= events(announced) + item_deltas(item@, output_index as int));
    let ghost told = all@;
    let done = StreamEvent::OutputItemDone {
        output_index,
        sequence_number: None,
        item: item.clone(),
    };
    all.push(done);
    assert(events(all@) =~= events(told).push(done@));
    assert(events(all@) =~= events(before) + item_events(item@, output_index as int));
}

/// The stream that says the same as a response that came in one piece, so that both can be
/// handled alike.
pub fn simulate_stream(response: Response) -> (stream: Vec<StreamEvent>)
    ensures
        events(stream@) == simulated(response@),
{
    let mut all: Vec<StreamEvent> = Vec::new();
    let created = StreamEvent::Created { response: response.clone() };
    all.push(created);
    let ghost head = seq![StreamEventView::Created { response: response@ }];
    assert(events(all@) =~= head);
    let mut at: usize = 0;
    assert(response@.output.take(0) =~= Seq::empty());
    assert(events(all@) =~= head + output_events(response@.output.take(0)));
    while at < response.output.len()
        invariant
            at <= response.output@.len(),
            events(all@) == head + output_events(response@.output.take(at as int)),
        decreases response.output@.len() - at,
    {
        let ghost so_far = events(all@);
        push_item_events(&mut all, &response.output[at], at);
        proof {
            let longer = response@.output.take(at + 1);
            assert(longer.drop_last() =~= response@.output.take(at as int));
            assert(longer.last() == response.output@[at as int]@);
        }
        at = at + 1;
        assert(events(all@) =~= head + output_events(response@.output.take(at as int)));
    }
    assert(response@.output.take(at as int) =~= response@.output);
    let ghost so_far = all@;
    let ghost end = final_event(response@);
    let last = if response.error.is_some() {
        StreamEvent::Failed { response }
    } else if response.incomplete_details.is_some() {
        StreamEvent::Incomplete { response }
    } else {
        StreamEvent::Completed { response }
    };
    all.push(last);
    assert(events(all@) =~= events(so_far).push(end));
    assert(events(all@) =~= head + output_events(response@.output) + seq![end]);
    all
}

/// The text that a stream tells.
pub open spec fn told_text(stream: Seq<StreamEventView>) -> Seq<char>
    decreases stream.len(),
{
    if stream.len() == 0 {
        Seq::empty()
    } else {
        match stream.last() {
            StreamEventView::OutputTextDelta { delta, .. } => told_text(stream.drop_last())
                + delta@,
            _ => told_text(stream.drop_last()),
        }
    }
}

/// The text in parts of a message.
pub open spec fn content_text(content: Seq<ResponseOutputContent>) -> Seq<char>
    decreases content.len(),
{
    if content.len() == 0 {
        Seq::empty()
    } else {
        match content.last() {
            ResponseOutputContent::OutputText { text } => content_text(content.drop_last())
                + text@,
            ResponseOutputContent::Refusal { .. } => content_text(content.drop_last()),
        }
    }
}

/// The text in the items of a response.
pub open spec fn output_text(output: Seq<OutputItemView>) -> Seq<char>
    decreases output.len(),
{
    if output.len() == 0 {
        Seq::empty()
    } else {
        match output.last() {
            OutputItemView::Message { content: Some(content), .. } => output_text(
                output.drop_last(),
            ) + content_text(content),
            _ => output_text(output.drop_last()),
        }
    }
}

proof fn told_text_of_both(left: Seq<StreamEventView>, right: Seq<StreamEventView>)
    ensures
        told_text(left + right) == told_text(left) + told_text(right),
    decreases right.len(),
{
    if right.len() == 0 {
        assert(left + right =~= left);
        assert(told_text(left) + told_text(right) =~= told_text(left));
    } else {
        assert((left + right).drop_last() =~= left + right.drop_last());
        told_text_of_both(left, right.drop_last());
        assert((left + right).last() == right.last());
        if let StreamEventView::OutputTextDelta { delta, .. } = right.last() {
            assert(told_text(left + right) =~= told_text(left) + told_text(right));
        }
    }
}

proof fn told_text_of_deltas(id: String, content: Seq<ResponseOutputContent>, index: int)
    ensures
        told_text(deltas(id, content, index)) == content_text(content),
    decreases content.len(),
{
    if content.len() > 0 {
        told_text_of_deltas(id, content.drop_last(), index);
        let others = deltas(id, content.drop_last(), index);
        if let ResponseOutputContent::OutputText { text } = content.last() {
            let all = deltas(id, content, index);
            assert(all.drop_last() =~= others);
        }
    }
}

proof fn told_text_of_event(event: StreamEventView)
    requires
        !(event is OutputTextDelta),
    ensures
        told_text(seq![event]) == Seq::<char>::empty(),
{
    assert(seq![event].drop_last() =~= Seq::<StreamEventView>::empty());
    assert(told_text(seq![event].drop_last()) =~= Seq::<char>::empty());
}

proof fn told_text_of_output(output: Seq<OutputItemView>)
    ensures
        told_text(output_events(output)) == output_text(output),
    decreases output.len(),
{
    if output.len() > 0 {
        let index = output.len() - 1;
        let item = output.last();
        told_text_of_output(output.drop_last());
        let added = StreamEventView::OutputItemAdded {
            output_index: index,
            sequence_number: None,
            item,
        };
        let done = StreamEventView::OutputItemDone {
            output_index: index,
            sequence_number: None,
            item,
        };
        told_text_of_event(added);
        told_text_of_event(done);
        told_text_of_both(output_events(output.drop_last()), item_events(item, index));
        told_text_of_both(seq![added] + item_deltas(item, index), seq![done]);
        told_text_of_both(seq![added], item_deltas(item, index));
        if let OutputItemView::Message { id, content: Some(content), .. } = item {
            told_text_of_deltas(id, content, index);
        }
        assert(told_text(output_events(output)) =~= output_text(output));
    }
}

/// The stream made of a response tells all of its text, in order, and nothing else; it begins
/// with the response being created and ends with the one event that says how it went.
pub proof fn simulated_stream_tells_the_response(response: ResponseView)
    ensures
        told_text(simulated(response)) == output_text(response.output),
        simulated(response).len() >= 2,
        simulated(response)[0] == (StreamEventView::Created { response }),
        simulated(response).last() == final_event(response),
        forall|i: int|
            0 <= i < simulated(response).len() - 1 ==> {
                let event = #[trigger] simulated(response)[i];
                !(event is Failed) && !(event is Incomplete) && !(event is Completed)
            },
{
    let created = StreamEventView::Created { response };
    let last = final_event(response);
    let body = output_events(response.output);
    told_text_of_event(created);
    told_text_of_event(last);
    told_text_of_output(response.output);
    told_text_of_both(seq![created] + body, seq![last]);
    told_text_of_both(seq![created], body);
    assert(told_text(simulated(response)) =~= output_text(response.output));
    output_does_not_end(response.output);
    assert forall|i: int| 0 <= i < simulated(response).len() - 1 implies {
        let event = #[trigger] simulated(response)[i];
        !(event is Failed) && !(event is Incomplete) && !(event is Completed)
    } by {
        if i > 0 {
            assert(simulated(response)[i] == body[i - 1]);
        }
    }
}

proof fn deltas_are_deltas(id: String, content: Seq<ResponseOutputContent>, index: int)
    ensures
        forall|i: int|
            0 <= i < deltas(id, content, index).len() ==> #[trigger] deltas(
                id,
                content,
                index,
            )[i] is OutputTextDelta,
    decreases content.len(),
{
    if content.len() > 0 {
        deltas_are_deltas(id, content.drop_last(), index);
    }
}

proof fn output_does_not_end(output: Seq<OutputItemView>)
    ensures
        forall|i: int|
            0 <= i < output_events(output).len() ==> {
                let event = #[trigger] output_events(output)[i];
                !(event is Failed) && !(event is Incomplete) && !(event is Completed)
            },
    decreases output.len(),
{
    if output.len() > 0 {
        output_does_not_end(output.drop_last());
        let front = output_events(output.drop_last());
        let item = output.last();
        let index = output.len() - 1;
        let own = item_events(item, index);
        if let OutputItemView::Message { id, content: Some(content), .. } = item {
            deltas_are_deltas(id, content, index);
        }
        assert forall|i: int| 0 <= i < output_events(output).len() implies {
            let event = #[trigger] output_events(output)[i];
            !(event is Failed) && !(event is Incomplete) && !(event is Completed)
        } by {
            if i < front.len() {
                assert(output_events(output)[i] == front[i]);
            } else {
                let j = i - front.len();
                assert(output_events(output)[i] == own[j]);
                if 0 < j < own.len() - 1 {
                    assert(own[j] == item_deltas(item, index)[j - 1]);
                }
            }
        }
    }
}

/// The item that an event announces, with its number.
pub open spec fn announced_item() -> spec_fn(StreamEventView) -> Option<(int, OutputItemView)> {
    |event: StreamEventView|
        match event {
            StreamEventView::OutputItemAdded { output_index, sequence_number: None, item } => Some(
                (output_index, item),
            ),
            _ => None,
        }
}

/// The item that an event says is complete, with its number.
pub open spec fn completed_item() -> spec_fn(StreamEventView) -> Option<(int, OutputItemView)> {
    |event: StreamEventView|
        match event {
            StreamEventView::OutputItemDone { output_index, sequence_number: None, item } => Some(
                (output_index, item),
            ),
            _ => None,
        }
}

/// The text of a part of a message that is text.
pub open spec fn part_text() -> spec_fn(ResponseOutputContent) -> Option<String> {
    |part: ResponseOutputContent|
        match part {
            ResponseOutputContent::OutputText { text } => Some(text),
            ResponseOutputContent::Refusal { .. } => None,
        }
}

/// The texts of an item and the id they come under: only a message has any.
pub open spec fn item_texts(item: OutputItemView) -> Seq<String> {
    match item {
        OutputItemView::Message { content: Some(content), .. } => content.filter_map(part_text()),
        _ => Seq::empty(),
    }
}

/// Whether the events are what is streamed of the item with this number: it is announced, each of
/// its texts comes under its id and number, and it is complete.
pub open spec fn streams_item(
    events: Seq<StreamEventView>,
    item: OutputItemView,
    index: int,
) -> bool {
    &&& events.len() == item_texts(item).len() + 2
    &&& events.first() == (StreamEventView::OutputItemAdded {
        output_index: index,
        sequence_number: None,
        item,
    })
    &&& events.last() == (StreamEventView::OutputItemDone {
        output_index: index,
        sequence_number: None,
        item,
    })
    &&& forall|i: int|
        0 <= i < item_texts(item).len() ==> {
            &&& #[trigger] events[i + 1] is OutputTextDelta
            &&& events[i + 1]->delta == item_texts(item)[i]
            &&& events[i + 1]->OutputTextDelta_output_index == index
            &&& item matches OutputItemView::Message { id, .. } && events[i + 1]->item_id == id
        }
}

/// Where in the stream the item with this number begins.
pub open spec fn item_start(output: Seq<OutputItemView>, index: int) -> int
    decreases index,
{
    if index <= 0 {
        1
    } else {
        item_start(output, index - 1) + item_texts(output[index - 1]).len() + 2
    }
}

proof fn deltas_tell_each_text(id: String, content: Seq<ResponseOutputContent>, index: int)
    ensures
        deltas(id, content, index).len() == content.filter_map(part_text()).len(),
        forall|i: int|
            #![trigger deltas(id, content, index)[i]]
            0 <= i < content.filter_map(part_text()).len() ==> deltas(id, content, index)[i] == (
            StreamEventView::OutputTextDelta {
                item_id: id,
                output_index: index,
                delta: content.filter_map(part_text())[i],
            }),
    decreases content.len(),
{
    if content.len() > 0 {
        deltas_tell_each_text(id, content.drop_last(), index);
        let others = deltas(id, content.drop_last(), index);
        let texts = content.drop_last().filter_map(part_text());
        assert forall|i: int| 0 <= i < content.filter_map(part_text()).len() implies #[trigger] deltas(
            id,
            content,
            index,
        )[i] == (StreamEventView::OutputTextDelta {
            item_id: id,
            output_index: index,
            delta: content.filter_map(part_text())[i],
        }) by {
            if i < others.len() {
                assert(deltas(id, content, index)[i] == others[i]);
                assert(content.filter_map(part_text())[i] == texts[i]);
            }
        }
    }
}

proof fn item_events_stream_the_item(item: OutputItemView, index: int)
    ensures
        streams_item(item_events(item, index), item, index),
{
    let own = item_events(item, index);
    if let OutputItemView::Message { id, content: Some(content), .. } = item {
        deltas_tell_each_text(id, content, index);
        assert forall|i: int| 0 <= i < item_texts(item).len() implies {
            &&& #[trigger] own[i + 1] is OutputTextDelta
            &&& own[i + 1]->delta == item_texts(item)[i]
            &&& own[i + 1]->OutputTextDelta_output_index == index
            &&& own[i + 1]->item_id == id
        } by {
            assert(own[i + 1] == deltas(id, content, index)[i]);
        }
    }
}

proof fn output_streams_each_item(output: Seq<OutputItemView>, at: int)
    requires
        0 <= at <= output.len(),
    ensures
        output_events(output).len() == item_start(output, output.len() as int) - 1,
        1 <= item_start(output, at) <= output_events(output).len() + 1,
        at < output.len() ==> item_start(output, at + 1) <= output_events(output).len() + 1
            && streams_item(
            output_events(output).subrange(
                item_start(output, at) - 1,
                item_start(output, at + 1) - 1,
            ),
            output[at],
            at,
        ),
    decreases output.len(),
{
    if output.len() > 0 {
        let front = output.drop_last();
        let last = output.len() - 1;
        item_events_stream_the_item(output.last(), last);
        starts_agree(output, last);
        if at < last {
            output_streams_each_item(front, at);
            starts_agree(output, at);
            starts_agree(output, at + 1);
            let from = item_start(output, at) - 1;
            let end = item_start(output, at + 1) - 1;
            assert(output_events(output).subrange(from, end) =~= output_events(front).subrange(
                from,
                end,
            ));
        } else {
            output_streams_each_item(front, last);
            let from = item_start(output, last) - 1;
            let end = item_start(output, last + 1) - 1;
            assert(output_events(output).subrange(from, end) =~= item_events(output.last(), last));
        }
    }
}

proof fn starts_agree(output: Seq<OutputItemView>, at: int)
    requires
        output.len() > 0,
        at < output.len(),
    ensures
        item_start(output.drop_last(), at) == item_start(output, at),
    decreases at,
{
    if at > 0 {
        starts_agree(output, at - 1);
    }
}

/// Every item of a response is streamed, whatever kind it is, one item behind the other and with
/// nothing between them: it is announced, its texts come in order under its own id and number, and
/// it is complete. Before the first comes that the response was created, behind the last how it
/// went: failed where there is an error, else incomplete where something is missing, else complete.
pub proof fn every_item_is_streamed(response: ResponseView, at: int)
    requires
        0 <= at < response.output.len(),
    ensures
        1 <= item_start(response.output, at) < item_start(response.output, at + 1)
            <= item_start(response.output, response.output.len() as int)
            == simulated(response).len() - 1,
        streams_item(
            simulated(response).subrange(
                item_start(response.output, at),
                item_start(response.output, at + 1),
            ),
            response.output[at],
            at,
        ),
{
    let output = response.output;
    output_streams_each_item(output, at);
    output_streams_each_item(output, output.len() as int);
    let from = item_start(output, at);
    let end = item_start(output, at + 1);
    let body = output_events(output);
    assert(simulated(response).subrange(from, end) =~= body.subrange(from - 1, end - 1));
}

/// The stream ends as the response did, and says so with the whole response.
pub proof fn stream_ends_as_the_response_did(response: ResponseView)
    ensures
        ({
            let last = simulated(response).last();
            &&& last is Failed == (response.error is Some)
            &&& last is Incomplete == (response.error is None
                && response.incomplete_details is Some)
            &&& last is Completed == (response.error is None
                && response.incomplete_details is None)
            &&& match last {
                StreamEventView::Failed { response: told } => told == response,
                StreamEventView::Incomplete { response: told } => told == response,
                StreamEventView::Completed { response: told } => told == response,
                _ => false,
            }
        }),
        simulated(response).first() == (StreamEventView::Created { response }),
{
}

proof fn collected_from_both<B>(
    left: Seq<StreamEventView>,
    right: Seq<StreamEventView>,
    wanted: spec_fn(StreamEventView) -> Option<B>,
)
    ensures
        (left + right).filter_map(wanted) == left.filter_map(wanted) + right.filter_map(wanted),
    decreases right.len(),
{
    if right.len() == 0 {
        assert(left + right =~= left);
        assert(left.filter_map(wanted) + right.filter_map(wanted) =~= left.filter_map(wanted));
    } else {
        collected_from_both(left, right.drop_last(), wanted);
        assert((left + right).drop_last() =~= left + right.drop_last());
        assert((left + right).filter_map(wanted) =~= left.filter_map(wanted) + right.filter_map(
            wanted,
        ));
    }
}

proof fn collected_from_one<B>(
    event: StreamEventView,
    wanted: spec_fn(StreamEventView) -> Option<B>,
)
    ensures
        seq![event].filter_map(wanted) == (match wanted(event) {
            Some(found) => seq![found],
            None => Seq::empty(),
        }),
{
    let one = seq![event];
    assert(one.drop_last() =~= Seq::empty());
    assert(one.drop_last().filter_map(wanted) =~= Seq::empty());
    assert(one.filter_map(wanted) =~= (match wanted(event) {
        Some(found) => seq![found],
        None => Seq::empty(),
    }));
}

proof fn deltas_announce_nothing<B>(
    id: String,
    content: Seq<ResponseOutputContent>,
    index: int,
    wanted: spec_fn(StreamEventView) -> Option<B>,
)
    requires
        forall|event: StreamEventView|
            event is OutputTextDelta ==> #[trigger] wanted(event) is None,
    ensures
        deltas(id, content, index).filter_map(wanted) == Seq::<B>::empty(),
    decreases content.len(),
{
    if content.len() > 0 {
        deltas_announce_nothing(id, content.drop_last(), index, wanted);
        let all = deltas(id, content, index);
        if content.last() is OutputText {
            assert(all.drop_last() =~= deltas(id, content.drop_last(), index));
        }
    }
}

proof fn items_collected(
    output: Seq<OutputItemView>,
    wanted: spec_fn(StreamEventView) -> Option<(int, OutputItemView)>,
)
    requires
        wanted == announced_item() || wanted == completed_item(),
    ensures
        output_events(output).filter_map(wanted) == Seq::new(
            output.len(),
            |i: int| (i, output[i]),
        ),
    decreases output.len(),
{
    if output.len() == 0 {
        assert(output_events(output).filter_map(wanted) =~= Seq::new(
            output.len(),
            |i: int| (i, output[i]),
        ));
    } else {
        let index = output.len() - 1;
        let item = output.last();
        items_collected(output.drop_last(), wanted);
        let added = StreamEventView::OutputItemAdded {
            output_index: index,
            sequence_number: None,
            item,
        };
        let done = StreamEventView::OutputItemDone {
            output_index: index,
            sequence_number: None,
            item,
        };
        let middle = item_deltas(item, index);
        collected_from_both(output_events(output.drop_last()), item_events(item, index), wanted);
        collected_from_both(seq![added] + middle, seq![done], wanted);
        collected_from_both(seq![added], middle, wanted);
        collected_from_one(added, wanted);
        collected_from_one(done, wanted);
        if let OutputItemView::Message { id, content: Some(content), .. } = item {
            deltas_announce_nothing(id, content, index, wanted);
        }
        assert(middle.filter_map(wanted) =~= Seq::empty());
        assert(output_events(output).filter_map(wanted) =~= Seq::new(
            output.len(),
            |i: int| (i, output[i]),
        ));
    }
}

/// Each item is announced exactly once and said to be complete exactly once, with its own number
/// and in the order of the output.
pub proof fn every_item_is_announced_and_completed_once(response: ResponseView)
    ensures
        simulated(response).filter_map(announced_item()) == Seq::new(
            response.output.len(),
            |i: int| (i, response.output[i]),
        ),
        simulated(response).filter_map(completed_item()) == Seq::new(
            response.output.len(),
            |i: int| (i, response.output[i]),
        ),
{
    let created = StreamEventView::Created { response };
    let last = final_event(response);
    let body = output_events(response.output);
    let all = Seq::new(response.output.len(), |i: int| (i, response.output[i]));
    items_collected(response.output, announced_item());
    items_collected(response.output, completed_item());
    collected_from_both(seq![created] + body, seq![last], announced_item());
    collected_from_both(seq![created], body, announced_item());
    collected_from_one(created, announced_item());
    collected_from_one(last, announced_item());
    collected_from_both(seq![created] + body, seq![last], completed_item());
    collected_from_both(seq![created], body, completed_item());
    collected_from_one(created, completed_item());
    collected_from_one(last, completed_item());
    assert(simulated(response).filter_map(announced_item()) =~= all);
    assert(simulated(response).filter_map(completed_item()) =~= all);
}

/// What stands behind the mark of an event is the event, all of it; a line without the mark, one
/// with nothing behind it, and one that ends the stream hold none.
pub proof fn events_stand_behind_their_mark(line: Seq<char>, rest: Seq<char>)
    ensures
        payload(line) == Some(rest) ==> line == "data: "@ + rest,
        payload("data: "@ + rest) is Some == (rest.len() > 0 && !(rest.len() >= "[DONE]"@.len()
            && rest.take("[DONE]"@.len() as int) == "[DONE]"@)),
        payload("data: "@ + rest) is Some ==> payload("data: "@ + rest) == Some(rest),
        payload(line) is None || line.len() > "data: "@.len(),
{
    reveal_strlit("data: ");
    reveal_strlit("[DONE]");
    let mark = "data: "@;
    let whole = mark + rest;
    assert(whole.take(mark.len() as int) =~= mark);
    assert(whole.skip(mark.len() as int) =~= rest);
    if payload(line) is Some {
        let found = line.skip(mark.len() as int);
        assert(line =~= mark + found);
    }
}

/// A request is about an image exactly where a message in it has a part that is one: whoever
/// speaks, and whatever its status.
pub proof fn images_are_noticed(
    role: String,
    status: Option<String>,
    content: Vec<ResponseInputContent>,
    item: ResponseInputItem,
)
    ensures
        (ResponseInputItem::Message { role, content: Some(content), status }).shows_image()
            == exists|i: int| 0 <= i < content@.len() && #[trigger] content@[i] is InputImage,
        !(ResponseInputItem::Message { role, content: None, status }).shows_image(),
        !(item is Message) ==> !item.shows_image(),
{
}

/// What is said of an answer says of every item what the item holds: its texts and summaries are
/// there exactly where the item has them, in their order.
pub proof fn views_keep_every_item(output: Seq<ResponseOutputItem>, at: int)
    requires
        0 <= at < output.len(),
    ensures
        items(output).len() == output.len(),
        match output[at] {
            ResponseOutputItem::Message { id, content, .. } =>
                items(output)[at] matches OutputItemView::Message {
                    id: same_id,
                    content: parts,
                    ..
                } && same_id == id && parts is Some == content is Some && (content is Some
                    ==> parts->0 == content->0@),
            ResponseOutputItem::FunctionCall { call_id, arguments, .. } =>
                items(output)[at] matches OutputItemView::FunctionCall {
                    call_id: same_id,
                    arguments: same_arguments,
                    ..
                } && same_id == call_id && same_arguments == arguments,
            ResponseOutputItem::Reasoning { id, summary, .. } =>
                items(output)[at] matches OutputItemView::Reasoning {
                    id: same_id,
                    summary: parts,
                    ..
                } && same_id == id && parts is Some == summary is Some && (summary is Some
                    ==> parts->0 == summary->0@),
        },
{
}

} // verus!
