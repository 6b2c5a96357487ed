//! The request that asks a model for a command: the task description, the
//! two-message payload, and the address it is sent to.

use vstd::prelude::*;
use vstd::string::*;
use crate::failure::{Failure, FailureModel};
use crate::text::{
    characters, join, joined, texts_of, trim, trim_back, trim_end, trimmed, CharClass,
};

verus! {

/// The instruction that opens every request.
pub const SYSTEM_PROMPT: &'static str =
    "You translate natural-language requests into a single shell command. Respond with only the runnable command, no explanations, no code fences. Prefer safe quoting for filenames. If the request is impossible, reply with a brief reason.";

/// The model asked where none is named.
pub const DEFAULT_MODEL: &'static str = "gpt-5.1-codex-max";

/// The base address used where none is given.
pub const DEFAULT_API_BASE: &'static str = "https://api.openai.com/v1";

/// What is appended to the base address.
pub const ENDPOINT_PATH: &'static str = "/responses";

/// The role of the instruction.
pub const ROLE_SYSTEM: &'static str = "system";

/// The role of the task description.
pub const ROLE_USER: &'static str = "user";

/// The type tag of every content part.
pub const PART_TYPE: &'static str = "input_text";

/// One part of a message's content.
#[derive(Debug, PartialEq, Eq)]
pub struct ContentPart {
    pub part_type: String,
    pub text: String,
}

/// One message of a request.
#[derive(Debug, PartialEq, Eq)]
pub struct Message {
    pub role: String,
    pub content: Vec<ContentPart>,
}

/// The payload of a request.
#[derive(Debug, PartialEq, Eq)]
pub struct ResponsesRequest {
    pub model: String,
    pub input: Vec<Message>,
}

/// What a [`ContentPart`] holds.
pub struct PartModel {
    pub part_type: Seq<char>,
    pub text: Seq<char>,
}

/// What a [`Message`] holds.
pub struct MessageModel {
    pub role: Seq<char>,
    pub content: Seq<PartModel>,
}

/// What a [`ResponsesRequest`] holds.
pub struct RequestModel {
    pub model: Seq<char>,
    pub input: Seq<MessageModel>,
}

impl View for ContentPart {
    type V = PartModel;

    open spec fn view(&self) -> PartModel {
        PartModel { part_type: self.part_type@, text: self.text@ }
    }
}

impl View for Message {
    type V = MessageModel;

    open spec fn view(&self) -> MessageModel {
        MessageModel {
            role: self.role@,
            content: Seq::new(self.content@.len(), |i: int| self.content@[i]@),
        }
    }
}

impl View for ResponsesRequest {
    type V = RequestModel;

    open spec fn view(&self) -> RequestModel {
        RequestModel {
            model: self.model@,
            input: Seq::new(self.input@.len(), |i: int| self.input@[i]@),
        }
    }
}

/// A message of one part that carries `text`.
pub open spec fn text_message(role: Seq<char>, text: Seq<char>) -> MessageModel {
    MessageModel { role, content: seq![PartModel { part_type: PART_TYPE@, text }] }
}

/// The request that asks `model` for a command that does `description`:
/// the instruction first, then the description.
pub open spec fn request_for(model: Seq<char>, description: Seq<char>) -> RequestModel {
    RequestModel {
        model,
        input: seq![
            text_message(ROLE_SYSTEM@, SYSTEM_PROMPT@),
            text_message(ROLE_USER@, description),
        ],
    }
}

/// `text` holds nothing but whitespace.
pub open spec fn is_blank(text: Seq<char>) -> bool {
    trim(text, CharClass::Whitespace).len() == 0
}

/// The task that `words` describe: the words joined by single spaces.
pub open spec fn description_of(words: Seq<String>) -> Seq<char> {
    joined(texts_of(words), seq![' '])
}

/// The address that requests are sent to: `api_base` without the slashes
/// at its end, then the endpoint's path.
pub open spec fn endpoint_of(api_base: Seq<char>) -> Seq<char> {
    trim_end(api_base, CharClass::Only('/')) + ENDPOINT_PATH@
}

/// A message of one part that carries `text`.
pub fn message(role: &str, text: &str) -> (made: Message)
    ensures
        made@ == text_message(role@, text@),
{
    let mut content: Vec<ContentPart> = Vec::new();
    content.push(ContentPart { part_type: PART_TYPE.to_owned(), text: text.to_owned() });
    let made = Message { role: role.to_owned(), content };
    assert(made@.content =~= text_message(role@, text@).content);
    made
}

/// Builds the request that asks `model` for a command that does
/// `user_request`.
pub fn build_request(model: &str, user_request: &str) -> (request: ResponsesRequest)
    ensures
        request@ == request_for(model@, user_request@),
{
    let mut input: Vec<Message> = Vec::new();
    input.push(message(ROLE_SYSTEM, SYSTEM_PROMPT));
    input.push(message(ROLE_USER, user_request));
    let request = ResponsesRequest { model: model.to_owned(), input };
    assert(request@.input =~= request_for(model@, user_request@).input);
    request
}

/// Joins `words` into the task description, and refuses one that holds
/// nothing but whitespace.
pub fn describe_task(words: &Vec<String>) -> (result: Result<String, Failure>)
    ensures
        match result {
            Ok(description) => description@ == description_of(words@) && !is_blank(
                description@,
            ),
            Err(failure) => failure@ == FailureModel::Usage && is_blank(description_of(words@)),
        },
{
    proof {
        reveal_strlit(" ");
    }
    assert(" "@ =~= seq![' ']);
    let description = join(words, " ");
    if trimmed(description.as_str(), CharClass::Whitespace).is_empty() {
        Err(Failure::Usage)
    } else {
        Ok(description)
    }
}

/// Builds the request that asks `model` for a command that does what
/// `words` describe, unless they describe nothing.
pub fn prepare_request(model: &str, words: &Vec<String>) -> (result: Result<
    ResponsesRequest,
    Failure,
>)
    ensures
        match result {
            Ok(request) => request@ == request_for(model@, description_of(words@)) && !is_blank(
                description_of(words@),
            ),
            Err(failure) => failure@ == FailureModel::Usage && is_blank(description_of(words@)),
        },
{
    match describe_task(words) {
        Ok(description) => Ok(build_request(model, description.as_str())),
        Err(failure) => Err(failure),
    }
}

/// The address that requests are sent to under `api_base`.
pub fn endpoint_url(api_base: &str) -> (url: String)
    ensures
        url@ == endpoint_of(api_base@),
{
    let chars = characters(api_base);
    let end = trim_back(&chars, 0, chars.len(), CharClass::Only('/'));
    assert(chars@.subrange(0, chars.len() as int) =~= api_base@);
    api_base.substring_char(0, end).to_owned().concat(ENDPOINT_PATH)
}

/// A request holds exactly two messages: the instruction under the role
/// `system`, then the description, as it is, under the role `user`.
pub proof fn lemma_request_shape(model: Seq<char>, description: Seq<char>)
    ensures
        request_for(model, description).model == model,
        request_for(model, description).input.len() == 2,
        request_for(model, description).input[0].role == ROLE_SYSTEM@,
        request_for(model, description).input[1].role == ROLE_USER@,
        request_for(model, description).input[1].content.len() == 1,
        request_for(model, description).input[1].content[0].text == description,
{
}

} // verus!
