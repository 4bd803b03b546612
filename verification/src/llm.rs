//! The language-model call as the library sees it: the settings a client is
//! built from, the request that is sent, and what is read out of the answer.

use crate::context::{llm_user_content, message_views, ContextMessage, ContextMessageView};
use crate::text::{is_blank, trim, trimmed};
use vstd::prelude::*;
use vstd::string::*;

verus! {

/// Why no model client can be set up, or why an answer is of no use.
#[derive(Debug, PartialEq, Eq)]
pub enum LlmError {
    /// The API key is blank.
    EmptyApiKey,
    /// The model name is blank.
    EmptyModel,
    /// The service answered with an error of its own.
    Api { code: String, message: String },
    /// The answer holds no text.
    MissingText,
}

/// The values of an [`LlmError`].
pub enum LlmErrorView {
    EmptyApiKey,
    EmptyModel,
    Api { code: Seq<char>, message: Seq<char> },
    MissingText,
}

impl View for LlmError {
    type V = LlmErrorView;

    open spec fn view(&self) -> LlmErrorView {
        match *self {
            LlmError::EmptyApiKey => LlmErrorView::EmptyApiKey,
            LlmError::EmptyModel => LlmErrorView::EmptyModel,
            LlmError::Api { code, message } => LlmErrorView::Api { code: code@, message: message@ },
            LlmError::MissingText => LlmErrorView::MissingText,
        }
    }
}

impl LlmErrorView {
    /// The complaint in words.
    pub open spec fn message_text(self) -> Seq<char> {
        match self {
            LlmErrorView::EmptyApiKey => "openai api key must not be empty"@,
            LlmErrorView::EmptyModel => "openai model must not be empty"@,
            LlmErrorView::Api { code, message } => "openai responses api returned error "@ + code
                + ": "@ + message,
            LlmErrorView::MissingText => "openai response missing assistant text content"@,
        }
    }
}

impl LlmError {
    /// The complaint in words.
    pub fn message(&self) -> (text: String)
        ensures
            text@ == self@.message_text(),
    {
        match self {
            LlmError::EmptyApiKey => "openai api key must not be empty".to_owned(),
            LlmError::EmptyModel => "openai model must not be empty".to_owned(),
            LlmError::Api { code, message } => {
                let mut text = "openai responses api returned error ".to_owned();
                text.append(code.as_str());
                text.append(": ");
                text.append(message.as_str());
                text
            },
            LlmError::MissingText => "openai response missing assistant text content".to_owned(),
        }
    }
}

/// What a model client is built from: the key and the model name, both
/// trimmed and neither empty.
#[derive(Debug, PartialEq, Eq)]
pub struct OpenAiSettings {
    api_key: String,
    model: String,
}

/// The values of [`OpenAiSettings`].
pub struct OpenAiSettingsView {
    pub api_key: Seq<char>,
    pub model: Seq<char>,
}

impl View for OpenAiSettings {
    type V = OpenAiSettingsView;

    closed spec fn view(&self) -> OpenAiSettingsView {
        OpenAiSettingsView { api_key: self.api_key@, model: self.model@ }
    }
}

/// The settings that a key and a model name give, or what is wrong with
/// them: the key is looked at first.
pub open spec fn settings_of(api_key: Seq<char>, model: Seq<char>) -> Result<
    OpenAiSettingsView,
    LlmErrorView,
> {
    if is_blank(api_key) {
        Err(LlmErrorView::EmptyApiKey)
    } else if is_blank(model) {
        Err(LlmErrorView::EmptyModel)
    } else {
        Ok(OpenAiSettingsView { api_key: trimmed(api_key), model: trimmed(model) })
    }
}

/// The values of the outcome of making settings.
pub open spec fn settings_result_view(r: Result<OpenAiSettings, LlmError>) -> Result<
    OpenAiSettingsView,
    LlmErrorView,
> {
    match r {
        Ok(settings) => Ok(settings@),
        Err(e) => Err(e@),
    }
}

impl OpenAiSettings {
    /// Makes settings of a key and a model name. Both are trimmed; a blank key
    /// is turned down, then a blank model name.
    pub fn new(api_key: &str, model: &str) -> (r: Result<OpenAiSettings, LlmError>)
        ensures
            settings_result_view(r) == settings_of(api_key@, model@),
    {
        let api_key = trim(api_key);
        if api_key.unicode_len() == 0 {
            return Err(LlmError::EmptyApiKey);
        }
        let model = trim(model);
        if model.unicode_len() == 0 {
            return Err(LlmError::EmptyModel);
        }
        Ok(OpenAiSettings { api_key: api_key.to_owned(), model: model.to_owned() })
    }

    /// The key, trimmed.
    pub fn api_key(&self) -> (r: &str)
        ensures
            r@ == self@.api_key,
    {
        self.api_key.as_str()
    }

    /// The model name, trimmed.
    pub fn model(&self) -> (r: &str)
        ensures
            r@ == self@.model,
    {
        self.model.as_str()
    }
}

/// Who speaks in a turn of the request.
#[derive(Debug, Clone, Copy, PartialEq, Eq)]
pub enum Role {
    System,
    User,
}

/// One turn of the request.
#[derive(Debug, PartialEq, Eq)]
pub struct InputMessage {
    pub role: Role,
    pub text: String,
}

/// The values of an [`InputMessage`].
pub struct InputMessageView {
    pub role: Role,
    pub text: Seq<char>,
}

impl View for InputMessage {
    type V = InputMessageView;

    open spec fn view(&self) -> InputMessageView {
        InputMessageView { role: self.role, text: self.text@ }
    }
}

/// A rewrite request: the model and the turns it is given.
#[derive(Debug, PartialEq, Eq)]
pub struct ResponseRequest {
    pub model: String,
    pub items: Vec<InputMessage>,
}

/// The values of a [`ResponseRequest`].
pub struct ResponseRequestView {
    pub model: Seq<char>,
    pub items: Seq<InputMessageView>,
}

impl View for ResponseRequest {
    type V = ResponseRequestView;

    open spec fn view(&self) -> ResponseRequestView {
        ResponseRequestView { model: self.model@, items: input_views(self.items@) }
    }
}

/// The views of the turns of a request, in order.
pub open spec fn input_views(items: Seq<InputMessage>) -> Seq<InputMessageView> {
    items.map_values(|m: InputMessage| m@)
}

/// A context message as a turn of the request.
pub open spec fn user_turn(m: ContextMessageView) -> InputMessageView {
    InputMessageView { role: Role::User, text: llm_user_content(m) }
}

/// The context messages as turns of the request, in order.
pub open spec fn context_turns(context: Seq<ContextMessageView>) -> Seq<InputMessageView> {
    context.map_values(|m: ContextMessageView| user_turn(m))
}

/// The turns of a request: the instructions as the system's turn, then each
/// context message as a user's turn, oldest first, then the text to rewrite
/// as the last user's turn.
pub open spec fn request_items(
    system_prompt: Seq<char>,
    context: Seq<ContextMessageView>,
    input: Seq<char>,
) -> Seq<InputMessageView> {
    seq![InputMessageView { role: Role::System, text: system_prompt }] + context_turns(context)
        + seq![InputMessageView { role: Role::User, text: input }]
}

/// Builds the request for one rewrite: the instructions, the context, and
/// the text to rewrite, in this order.
pub fn build_response_request(
    model: &str,
    system_prompt: &str,
    context: &Vec<ContextMessage>,
    input: &str,
) -> (request: ResponseRequest)
    ensures
        request@.model == model@,
        request@.items == request_items(system_prompt@, message_views(context@), input@),
        request@.items.len() == context.len() + 2,
{
    let mut items: Vec<InputMessage> = Vec::new();
    items.push(InputMessage { role: Role::System, text: system_prompt.to_owned() });
    let ghost head = seq![InputMessageView { role: Role::System, text: system_prompt@ }];
    let ghost views = message_views(context@);
    let mut i: usize = 0;
    assert(input_views(items@) =~= head + context_turns(views.take(0)));
    while i < context.len()
        invariant
            i <= context.len(),
            views == message_views(context@),
            head == seq![InputMessageView { role: Role::System, text: system_prompt@ }],
            input_views(items@) == head + context_turns(views.take(i as int)),
        decreases context.len() - i,
    {
        let ghost sofar = items@;
        let text = context[i].as_llm_user_content();
        items.push(InputMessage { role: Role::User, text });
        proof {
            assert(views[i as int] == context[i as int]@);
            assert(views.take(i + 1) =~= views.take(i as int).push(views[i as int]));
            assert(input_views(items@) =~= input_views(sofar).push(user_turn(views[i as int])));
            assert(context_turns(views.take(i + 1)) =~= context_turns(views.take(i as int)).push(
                user_turn(views[i as int]),
            ));
            assert(input_views(items@) =~= head + context_turns(views.take(i + 1)));
        }
        i = i + 1;
    }
    items.push(InputMessage { role: Role::User, text: input.to_owned() });
    proof {
        assert(views.take(i as int) =~= views);
        assert(input_views(items@) =~= request_items(system_prompt@, views, input@));
    }
    ResponseRequest { model: model.to_owned(), items }
}

/// One part of an answering message. Only text counts.
#[derive(Debug, PartialEq, Eq)]
pub enum OutputContent {
    OutputText(String),
    Other,
}

/// The values of an [`OutputContent`].
pub enum OutputContentView {
    OutputText(Seq<char>),
    Other,
}

impl View for OutputContent {
    type V = OutputContentView;

    open spec fn view(&self) -> OutputContentView {
        match *self {
            OutputContent::OutputText(text) => OutputContentView::OutputText(text@),
            OutputContent::Other => OutputContentView::Other,
        }
    }
}

/// One item of an answer. Only messages count.
#[derive(Debug, PartialEq, Eq)]
pub enum OutputItem {
    Message(Vec<OutputContent>),
    Other,
}

/// The values of an [`OutputItem`].
pub enum OutputItemView {
    Message(Seq<OutputContentView>),
    Other,
}

impl View for OutputItem {
    type V = OutputItemView;

    open spec fn view(&self) -> OutputItemView {
        match *self {
            OutputItem::Message(parts) => OutputItemView::Message(
                parts@.map_values(|c: OutputContent| c@),
            ),
            OutputItem::Other => OutputItemView::Other,
        }
    }
}

/// The views of the items of an answer, in order.
pub open spec fn output_views(output: Seq<OutputItem>) -> Seq<OutputItemView> {
    output.map_values(|item: OutputItem| item@)
}

/// What a part adds to the text of its message: its text, trimmed; nothing
/// where it is no text.
pub open spec fn content_text(part: OutputContentView) -> Seq<char> {
    match part {
        OutputContentView::OutputText(text) => trimmed(text),
        OutputContentView::Other => Seq::empty(),
    }
}

/// The text of a message: what its parts add, one after the other.
pub open spec fn message_text(parts: Seq<OutputContentView>) -> Seq<char>
    decreases parts.len(),
{
    if parts.len() == 0 {
        Seq::empty()
    } else {
        message_text(parts.drop_last()) + content_text(parts.last())
    }
}

/// The text of an item: that of a message; nothing for any other item.
pub open spec fn item_text(item: OutputItemView) -> Seq<char> {
    match item {
        OutputItemView::Message(parts) => message_text(parts),
        OutputItemView::Other => Seq::empty(),
    }
}

/// The texts of the items that have one, in order.
pub open spec fn item_texts(output: Seq<OutputItemView>) -> Seq<Seq<char>>
    decreases output.len(),
{
    if output.len() == 0 {
        Seq::empty()
    } else if item_text(output.last()).len() == 0 {
        item_texts(output.drop_last())
    } else {
        item_texts(output.drop_last()).push(item_text(output.last()))
    }
}

/// The parts, with a line break between each two.
pub open spec fn lines(parts: Seq<Seq<char>>) -> Seq<char>
    decreases parts.len(),
{
    if parts.len() == 0 {
        Seq::empty()
    } else if parts.len() == 1 {
        parts[0]
    } else {
        lines(parts.drop_last()) + seq!['\n'] + parts.last()
    }
}

/// The text of an answer: the texts of its messages, one per line.
pub open spec fn response_text(output: Seq<OutputItemView>) -> Seq<char> {
    lines(item_texts(output))
}

fn message_text_of(parts: &Vec<OutputContent>) -> (text: String)
    ensures
        text@ == message_text(parts@.map_values(|c: OutputContent| c@)),
{
    let ghost views = parts@.map_values(|c: OutputContent| c@);
    let mut text = String::new();
    let mut i: usize = 0;
    while i < parts.len()
        invariant
            i <= parts.len(),
            views == parts@.map_values(|c: OutputContent| c@),
            text@ == message_text(views.take(i as int)),
        decreases parts.len() - i,
    {
        proof {
            assert(views.take(i + 1).drop_last() =~= views.take(i as int));
            assert(views.take(i + 1).last() == parts[i as int]@);
        }
        match &parts[i] {
            OutputContent::OutputText(value) => {
                text.append(trim(value.as_str()));
            },
            OutputContent::Other => {
                assert(text@ + Seq::<char>::empty() =~= text@);
            },
        }
        i = i + 1;
    }
    proof {
        assert(views.take(i as int) =~= views);
    }
    text
}

/// Reads the text out of the items of an answer.
pub fn extract_response_text(output: &Vec<OutputItem>) -> (text: String)
    ensures
        text@ == response_text(output_views(output@)),
{
    let ghost views = output_views(output@);
    let mut text = String::new();
    let mut found: usize = 0;
    let mut i: usize = 0;
    while i < output.len()
        invariant
            i <= output.len(),
            views == output_views(output@),
            found == item_texts(views.take(i as int)).len(),
            found <= i,
            text@ == lines(item_texts(views.take(i as int))),
        decreases output.len() - i,
    {
        proof {
            assert(views.take(i + 1).drop_last() =~= views.take(i as int));
            assert(views.take(i + 1).last() == output[i as int]@);
        }
        match &output[i] {
            OutputItem::Message(parts) => {
                let part = message_text_of(parts);
                if part.as_str().unicode_len() > 0 {
                    let ghost before = item_texts(views.take(i as int));
                    if found > 0 {
                        text.append("\n");
                        proof {
                            reveal_strlit("\n");
                            assert("\n"@ =~= seq!['\n']);
                        }
                    }
                    text.append(part.as_str());
                    found = found + 1;
                    proof {
                        let after = before.push(part@);
                        assert(after.drop_last() =~= before);
                        if before.len() == 0 {
                            assert(text@ =~= part@);
                        }
                    }
                }
            },
            OutputItem::Other => {},
        }
        i = i + 1;
    }
    proof {
        assert(views.take(i as int) =~= views);
    }
    text
}

/// An error that the service reports in place of an answer.
#[derive(Debug, PartialEq, Eq)]
pub struct ResponseError {
    pub code: String,
    pub message: String,
}

/// The rewritten text that an answer gives: none where the service reports
/// an error or the answer holds no text, else its text, trimmed.
pub open spec fn reply_of(
    error: Option<(Seq<char>, Seq<char>)>,
    output: Seq<OutputItemView>,
) -> Result<Seq<char>, LlmErrorView> {
    match error {
        Some((code, message)) => Err(LlmErrorView::Api { code, message }),
        None => if trimmed(response_text(output)).len() == 0 {
            Err(LlmErrorView::MissingText)
        } else {
            Ok(trimmed(response_text(output)))
        },
    }
}

/// The values of the outcome of reading an answer.
pub open spec fn reply_view(r: Result<String, LlmError>) -> Result<Seq<char>, LlmErrorView> {
    match r {
        Ok(text) => Ok(text@),
        Err(e) => Err(e@),
    }
}

/// The code and the message of an error of the service, if there is one.
pub open spec fn response_error_view(error: Option<ResponseError>) -> Option<
    (Seq<char>, Seq<char>),
> {
    match error {
        Some(e) => Some((e.code@, e.message@)),
        None => None,
    }
}

/// Reads the rewritten text out of an answer of the service.
pub fn read_rewrite_reply(error: Option<ResponseError>, output: &Vec<OutputItem>) -> (r: Result<
    String,
    LlmError,
>)
    ensures
        reply_view(r) == reply_of(response_error_view(error), output_views(output@)),
{
    match error {
        Some(e) => {
            let ResponseError { code, message } = e;
            return Err(LlmError::Api { code, message });
        },
        None => {},
    }
    let text = extract_response_text(output);
    let kept = trim(text.as_str());
    if kept.unicode_len() == 0 {
        return Err(LlmError::MissingText);
    }
    Ok(kept.to_owned())
}

} // verus!
