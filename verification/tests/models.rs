use zed_core::chatgpt_model;
use zed_core::chatgpt_model::ChatGptModel;
use zed_core::completion;
use zed_core::completion::{CompletionRequest, ConversationItem, MessagePart, Role};
use zed_core::responses;
use zed_core::responses::{
    Header, IncompleteDetails, IncompleteReason, ReasoningEffort, ReplyHandling, Request, Response,
    ResponseError, ResponseImageDetail, ResponseInputContent, ResponseInputItem,
    ResponseOutputContent, ResponseOutputItem, StreamEvent,
};
use zed_core::subscription::CodexCredentials;

fn message(role: Role, parts: &[&str]) -> ConversationItem<u32> {
    ConversationItem::Message {
        role,
        content: parts.iter().map(|part| MessagePart::Text((*part).to_owned())).collect(),
    }
}

fn request(input: Vec<ResponseInputItem>, stream: bool) -> Request {
    Request {
        model: "m".to_owned(),
        input,
        stream,
        temperature: None,
        tools: Vec::new(),
        tool_choice: None,
        reasoning: None,
        includables: None,
        store: false,
    }
}

fn user_message(content: Vec<ResponseInputContent>) -> ResponseInputItem {
    ResponseInputItem::Message { role: "user".to_owned(), content: Some(content), status: None }
}

fn answer(id: &str, texts: &[&str]) -> ResponseOutputItem {
    ResponseOutputItem::Message {
        id: id.to_owned(),
        role: "assistant".to_owned(),
        content: Some(
            texts
                .iter()
                .map(|text| ResponseOutputContent::OutputText { text: (*text).to_owned() })
                .collect(),
        ),
    }
}

#[test]
fn models_are_listed_newest_first() {
    let ids: Vec<&str> = ChatGptModel::all().iter().map(|model| model.id()).collect();
    assert_eq!(
        ids,
        [
            "gpt-5.4",
            "gpt-5.4-mini",
            "gpt-5.3-codex",
            "gpt-5.3-codex-spark",
            "gpt-5.2-codex",
            "gpt-5.2",
            "gpt-5.1-codex-max",
            "gpt-5.1-codex",
            "gpt-5.1-codex-mini",
            "gpt-5.1",
            "gpt-5-codex",
            "gpt-5-codex-mini",
            "gpt-5",
        ]
    );
    assert_eq!(chatgpt_model::default_model(), ChatGptModel::Gpt54);
    assert_eq!(chatgpt_model::default_fast_model(), ChatGptModel::Gpt54Mini);
}

#[test]
fn models_have_their_limits() {
    assert_eq!(ChatGptModel::Gpt53CodexSpark.max_token_count(), 128_000);
    assert_eq!(ChatGptModel::Gpt54.max_token_count(), 1_050_000);
    assert_eq!(ChatGptModel::Gpt5.max_token_count(), 400_000);
    assert_eq!(ChatGptModel::Gpt53CodexSpark.max_output_tokens(), Some(8_192));
    assert_eq!(ChatGptModel::Gpt54Mini.max_output_tokens(), Some(128_000));
    assert!(!ChatGptModel::Gpt53CodexSpark.supports_images());
    assert!(ChatGptModel::Gpt51CodexMax.supports_images());
    assert_eq!(ChatGptModel::Gpt54.reasoning_effort(), None);
    assert!(!ChatGptModel::Gpt54.supports_thinking());
    assert_eq!(ChatGptModel::Gpt52.reasoning_effort(), Some(ReasoningEffort::Medium));
    assert!(ChatGptModel::Gpt52.supports_thinking());
    assert_eq!(ChatGptModel::Gpt51CodexMini.display_name(), "GPT-5.1 Codex Mini");
    assert_eq!(ChatGptModel::Gpt5.telemetry_id(), "openai-subscribed/gpt-5");
}

#[test]
fn system_messages_become_instructions() {
    let prepared = completion::prepare_request(CompletionRequest {
        input: vec![
            message(Role::System, &["one", "two"]),
            message(Role::User, &["hello"]),
            ConversationItem::Other(7),
            ConversationItem::Message {
                role: Role::System,
                content: vec![MessagePart::Other(9), MessagePart::Text("three".to_owned())],
            },
        ],
        instructions: None,
        store: None,
        max_output_tokens: Some(5),
    });
    assert_eq!(prepared.instructions.as_deref(), Some("one\n\ntwo\n\nthree"));
    assert_eq!(prepared.store, Some(false));
    assert_eq!(prepared.max_output_tokens, None);
    assert_eq!(prepared.input.len(), 2);
    assert!(matches!(&prepared.input[0], ConversationItem::Message { role: Role::User, .. }));
    assert!(matches!(&prepared.input[1], ConversationItem::Other(7)));
}

#[test]
fn instructions_stay_without_system_messages() {
    let prepared = completion::prepare_request(CompletionRequest {
        input: vec![message(Role::Assistant, &["hi"])],
        instructions: Some("kept".to_owned()),
        store: Some(true),
        max_output_tokens: None,
    });
    assert_eq!(prepared.instructions.as_deref(), Some("kept"));
    assert_eq!(prepared.input.len(), 1);
}

#[test]
fn headers_name_the_account() {
    let mut credentials = CodexCredentials {
        access_token: String::new(),
        refresh_token: String::new(),
        expires_at_ms: 0,
        account_id: None,
        email: None,
    };
    let header = |name: &str, value: &str| Header { name: name.to_owned(), value: value.to_owned() };
    let plain = vec![header("originator", "zed"), header("OpenAI-Beta", "responses=experimental")];
    assert_eq!(completion::extra_headers(&credentials), plain);
    credentials.account_id = Some(String::new());
    assert_eq!(completion::extra_headers(&credentials), plain);
    credentials.account_id = Some("acc".to_owned());
    assert_eq!(
        completion::extra_headers(&credentials),
        vec![
            header("originator", "zed"),
            header("OpenAI-Beta", "responses=experimental"),
            header("ChatGPT-Account-Id", "acc"),
        ]
    );
}

#[test]
fn requests_with_images_are_marked() {
    let text = ResponseInputContent::InputText { text: "look".to_owned() };
    let image =
        ResponseInputContent::InputImage { image_url: None, detail: ResponseImageDetail::default() };
    let without = request(vec![user_message(vec![text])], true);
    assert!(!responses::is_vision_request(&without));
    assert_eq!(responses::vision_header(&without), None);
    let with = request(vec![user_message(Vec::new()), user_message(vec![image])], true);
    assert!(responses::is_vision_request(&with));
    assert_eq!(
        responses::vision_header(&with),
        Some(Header { name: "Copilot-Vision-Request".to_owned(), value: "true".to_owned() })
    );
}

#[test]
fn replies_are_handled_by_their_kind() {
    assert_eq!(
        responses::stream_response(&request(Vec::new(), true), false),
        ReplyHandling::Refused
    );
    assert_eq!(responses::stream_response(&request(Vec::new(), true), true), ReplyHandling::Lines);
    assert_eq!(responses::stream_response(&request(Vec::new(), false), true), ReplyHandling::Whole);
    assert_eq!(
        responses::connection_error("500 Internal Server Error", "oops"),
        "Failed to connect to API: 500 Internal Server Error oops"
    );
}

#[test]
fn lines_of_a_stream_hold_events() {
    assert_eq!(responses::event_payload("data: {\"a\":1}"), Some("{\"a\":1}".to_owned()));
    assert_eq!(responses::event_payload("data: "), None);
    assert_eq!(responses::event_payload("data: [DONE]"), None);
    assert_eq!(responses::event_payload("data: [DONE] "), None);
    assert_eq!(responses::event_payload("event: ping"), None);
    assert_eq!(responses::event_payload("data:x"), None);
    assert_eq!(responses::stream_item(Ok("data: x".to_owned())), Some(Ok("x".to_owned())));
    assert_eq!(responses::stream_item(Ok(String::new())), None);
    assert_eq!(
        responses::stream_item(Err("reset".to_owned())),
        Some(Err("reset".to_owned()))
    );
}

#[test]
fn whole_response_is_told_as_a_stream() {
    let response = Response {
        id: Some("r".to_owned()),
        output: vec![
            answer("m1", &["Hel", "lo"]),
            ResponseOutputItem::FunctionCall {
                id: None,
                call_id: "c".to_owned(),
                name: "f".to_owned(),
                arguments: "{}".to_owned(),
                status: None,
                thought_signature: None,
            },
        ],
        ..Response::default()
    };
    let stream = responses::simulate_stream(response);
    assert_eq!(stream.len(), 8);
    assert!(matches!(&stream[0], StreamEvent::Created { response } if response.id.as_deref() == Some("r")));
    assert!(matches!(&stream[1], StreamEvent::OutputItemAdded { output_index: 0, .. }));
    assert!(matches!(&stream[2], StreamEvent::OutputTextDelta { item_id, output_index: 0, delta }
        if item_id == "m1" && delta == "Hel"));
    assert!(matches!(&stream[3], StreamEvent::OutputTextDelta { delta, .. } if delta == "lo"));
    assert!(matches!(&stream[4], StreamEvent::OutputItemDone { output_index: 0, sequence_number: None, .. }));
    assert!(matches!(&stream[5], StreamEvent::OutputItemAdded { output_index: 1, .. }));
    assert!(matches!(&stream[6], StreamEvent::OutputItemDone { output_index: 1, .. }));
    assert!(matches!(&stream[7], StreamEvent::Completed { response } if response.output.len() == 2));
}

#[test]
fn refusals_are_no_text() {
    let response = Response {
        output: vec![ResponseOutputItem::Message {
            id: "m".to_owned(),
            role: "assistant".to_owned(),
            content: Some(vec![ResponseOutputContent::Refusal { refusal: "no".to_owned() }]),
        }],
        ..Response::default()
    };
    assert_eq!(responses::simulate_stream(response).len(), 4);
}

#[test]
fn last_event_says_how_the_response_ended() {
    let failed = Response {
        error: Some(ResponseError { code: "429".to_owned(), message: "slow".to_owned() }),
        incomplete_details: Some(IncompleteDetails { reason: None }),
        ..Response::default()
    };
    assert!(matches!(
        responses::simulate_stream(failed).last(),
        Some(StreamEvent::Failed { .. })
    ));
    let incomplete = Response {
        incomplete_details: Some(IncompleteDetails {
            reason: Some(IncompleteReason::MaxOutputTokens),
        }),
        ..Response::default()
    };
    assert!(matches!(
        responses::simulate_stream(incomplete).last(),
        Some(StreamEvent::Incomplete { .. })
    ));
    let empty = responses::simulate_stream(Response::default());
    assert_eq!(empty.len(), 2);
    assert!(matches!(empty.last(), Some(StreamEvent::Completed { .. })));
}

#[test]
fn conversations_are_converted_for_the_backend() {
    let options = completion::conversion_options(&ChatGptModel::Gpt5Codex);
    assert_eq!(options.model_id, "gpt-5-codex");
    assert!(options.supports_parallel_tool_calls && !options.supports_prompt_cache_key);
    assert_eq!(options.max_output_tokens, None);
    assert_eq!(options.reasoning_effort, Some(ReasoningEffort::Medium));
    assert_eq!(completion::conversion_options(&ChatGptModel::Gpt54).reasoning_effort, None);
}
