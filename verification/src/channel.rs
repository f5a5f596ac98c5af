//! The HTTP channel to a language model with an interface like OpenAI's.

use crate::error::{is_reporter_error, labelled, CollectorError, CollectorResult};
use crate::json::{
    array_text, item_of, json_array, json_member, json_object, json_string, member_of, member_text,
    object_text, string_text, text_of, Json,
};
use crate::text::{joined, text_option, texts};
use vstd::prelude::*;
use vstd::string::*;

verus! {

/// How many seconds a request may take.
pub const REQUEST_TIMEOUT_SECS: u64 = 30;

/// The proxy that is asked where none is configured.
pub const DEFAULT_PROXY_URL: &'static str = "http://127.0.0.1:11837";

/// The model that is asked where none is configured.
pub const DEFAULT_MODEL: &'static str = "deepseek-v4-flash";

/// The path of the chat completions behind the URL of the proxy.
pub const COMPLETIONS_PATH: &'static str = "/v1/chat/completions";

/// A channel to a language model behind HTTP.
#[derive(Debug)]
pub struct HttpLlmChannel {
    /// The whole URL of the chat completions.
    pub endpoint: String,
    /// The name of the model.
    pub model: String,
    /// How many seconds a request may take.
    pub timeout_secs: u64,
}

/// What became of a request.
#[derive(Debug)]
pub enum ChatReply {
    /// There was no client to send it with; what the client's builder said.
    NoClient(String),
    /// It was not answered; what the client said.
    NotAnswered(String),
    /// The answer was not JSON; what the client said.
    NotJson(String),
    /// The answer.
    Document(Json),
}

/// The members of the JSON object that a message is sent as.
pub open spec fn message_members(role: Seq<char>, content: Seq<char>) -> Seq<Seq<char>> {
    seq![
        json_member("role"@, json_string(role)),
        json_member("content"@, json_string(content)),
    ]
}

/// The JSON object that a message is sent as.
pub open spec fn json_message(role: Seq<char>, content: Seq<char>) -> Seq<char> {
    json_object(message_members(role, content))
}

/// The members of the JSON object that a request is sent as.
pub open spec fn request_members(
    model: Seq<char>,
    system_prompt: Seq<char>,
    user_prompt: Seq<char>,
) -> Seq<Seq<char>> {
    seq![
        json_member("model"@, json_string(model)),
        json_member(
            "messages"@,
            json_array(
                seq![json_message("system"@, system_prompt), json_message("user"@, user_prompt)],
            ),
        ),
        json_member("temperature"@, "0.1"@),
    ]
}

/// The text that an answer holds: the content of the message of its first choice.
pub open spec fn content_of(document: Json) -> Option<Seq<char>> {
    match member_of(document, "choices"@) {
        None => None,
        Some(choices) => match item_of(choices, 0) {
            None => None,
            Some(choice) => match member_of(choice, "message"@) {
                None => None,
                Some(message) => match member_of(message, "content"@) {
                    None => None,
                    Some(content) => text_of(content),
                },
            },
        },
    }
}

/// Why an answer without a text is an error.
pub const MISSING_CONTENT: &'static str = "LLM response missing content";

/// What a request gave: the text of the answer, or the reason of the error.
pub open spec fn completed(reply: ChatReply) -> Result<Seq<char>, Seq<char>> {
    match reply {
        ChatReply::NoClient(message) => Err("failed to build HTTP client: "@ + message@),
        ChatReply::NotAnswered(message) => Err("LLM request failed: "@ + message@),
        ChatReply::NotJson(message) => Err("failed to parse LLM response: "@ + message@),
        ChatReply::Document(document) => match content_of(document) {
            Some(content) => Ok(content),
            None => Err(MISSING_CONTENT@),
        },
    }
}

/// The text that an answer holds.
fn content_in(document: &Json) -> (res: Option<String>)
    ensures
        text_option(res) == content_of(*document),
{
    let choices = match document.get("choices") {
        Some(found) => found,
        None => return None,
    };
    let choice = match choices.item(0) {
        Some(found) => found,
        None => return None,
    };
    let message = match choice.get("message") {
        Some(found) => found,
        None => return None,
    };
    let content = match message.get("content") {
        Some(found) => found,
        None => return None,
    };
    match content.as_str() {
        Some(text) => Some(String::from_str(text)),
        None => None,
    }
}

/// Writes a message as JSON.
fn message_text(role: &str, content: &str) -> (res: String)
    ensures
        res@ == json_message(role@, content@),
{
    let mut members: Vec<String> = Vec::new();
    members.push(member_text("role", string_text(role).as_str()));
    members.push(member_text("content", string_text(content).as_str()));
    assert(texts(members@) == message_members(role@, content@));
    object_text(&members)
}

/// An error of a request.
fn request_error(label: &str, message: &str) -> (res: CollectorError)
    ensures
        is_reporter_error(res, label@ + message@),
{
    CollectorError::Reporter { reason: labelled(label, message) }
}

/// `o`, or `default`.
pub open spec fn or_default(o: Option<Seq<char>>, default: Seq<char>) -> Seq<char> {
    match o {
        Some(s) => s,
        None => default,
    }
}

/// `o`, or `default`.
fn text_or(o: &Option<String>, default: &str) -> (res: String)
    ensures
        res@ == or_default(text_option(*o), default@),
{
    match o {
        Some(s) => s.clone(),
        None => String::from_str(default),
    }
}

impl HttpLlmChannel {
    /// A channel to the given URL of chat completions and the given model.
    pub fn new(endpoint: &str, model: &str) -> (res: Self)
        ensures
            res.endpoint@ == endpoint@,
            res.model@ == model@,
            res.timeout_secs == REQUEST_TIMEOUT_SECS,
    {
        HttpLlmChannel {
            endpoint: String::from_str(endpoint),
            model: String::from_str(model),
            timeout_secs: REQUEST_TIMEOUT_SECS,
        }
    }

    /// A channel to the proxy and the model that the environment configures,
    /// or to those that are asked otherwise.
    pub fn from_env(proxy_url: &Option<String>, model: &Option<String>) -> (res: Self)
        ensures
            res.endpoint@ == or_default(text_option(*proxy_url), DEFAULT_PROXY_URL@)
                + COMPLETIONS_PATH@,
            res.model@ == or_default(text_option(*model), DEFAULT_MODEL@),
            res.timeout_secs == REQUEST_TIMEOUT_SECS,
    {
        let mut endpoint = text_or(proxy_url, DEFAULT_PROXY_URL);
        endpoint.append(COMPLETIONS_PATH);
        let name = text_or(model, DEFAULT_MODEL);
        HttpLlmChannel::new(endpoint.as_str(), name.as_str())
    }

    /// The JSON that asks the model.
    pub fn request_body(&self, system_prompt: &str, user_prompt: &str) -> (res: String)
        ensures
            res@ == json_object(request_members(self.model@, system_prompt@, user_prompt@)),
    {
        let mut messages: Vec<String> = Vec::new();
        messages.push(message_text("system", system_prompt));
        messages.push(message_text("user", user_prompt));
        assert(texts(messages@) == seq![
            json_message("system"@, system_prompt@),
            json_message("user"@, user_prompt@),
        ]);
        let mut members: Vec<String> = Vec::new();
        members.push(member_text("model", string_text(self.model.as_str()).as_str()));
        members.push(member_text("messages", array_text(&messages).as_str()));
        members.push(member_text("temperature", "0.1"));
        assert(texts(members@) == request_members(self.model@, system_prompt@, user_prompt@));
        object_text(&members)
    }

    /// Reads what became of a request.
    pub fn completion(&self, reply: &ChatReply) -> (res: CollectorResult<String>)
        ensures
            match (res, completed(*reply)) {
                (Ok(text), Ok(content)) => text@ == content,
                (Err(e), Err(reason)) => is_reporter_error(e, reason),
                _ => false,
            },
    {
        match reply {
            ChatReply::NoClient(message) => Err(
                request_error("failed to build HTTP client: ", message.as_str()),
            ),
            ChatReply::NotAnswered(message) => Err(
                request_error("LLM request failed: ", message.as_str()),
            ),
            ChatReply::NotJson(message) => Err(
                request_error("failed to parse LLM response: ", message.as_str()),
            ),
            ChatReply::Document(document) => match content_in(document) {
                Some(content) => Ok(content),
                None => Err(CollectorError::Reporter { reason: String::from_str(MISSING_CONTENT) }),
            },
        }
    }
}

impl Clone for HttpLlmChannel {
    fn clone(&self) -> (res: Self)
        ensures
            res.endpoint@ == self.endpoint@,
            res.model@ == self.model@,
            res.timeout_secs == self.timeout_secs,
    {
        HttpLlmChannel {
            endpoint: self.endpoint.clone(),
            model: self.model.clone(),
            timeout_secs: self.timeout_secs,
        }
    }
}

/// A request names the model, and holds the two prompts, whole, each in a message
/// of its own role, the system's first.
pub proof fn law_prompts_are_sent_whole(
    model: Seq<char>,
    system_prompt: Seq<char>,
    user_prompt: Seq<char>,
)
    ensures
        exists|members: Seq<Seq<char>>|
            json_object(request_members(model, system_prompt, user_prompt)) == "{"@
                + #[trigger] joined(members, ","@) + "}"@ && members.len() == 3
                && members.contains(json_string("model"@) + ":"@ + json_string(model))
                && members.contains(json_string("temperature"@) + ":"@ + "0.1"@)
                && members.contains(
                json_string("messages"@) + ":"@ + json_array(
                    seq![
                        json_object(
                            seq![
                                json_member("role"@, json_string("system"@)),
                                json_member("content"@, json_string(system_prompt)),
                            ],
                        ),
                        json_object(
                            seq![
                                json_member("role"@, json_string("user"@)),
                                json_member("content"@, json_string(user_prompt)),
                            ],
                        ),
                    ],
                ),
            ),
{
    let members = request_members(model, system_prompt, user_prompt);
    assert(json_object(members) == "{"@ + joined(members, ","@) + "}"@);
    assert(members[0] == json_string("model"@) + ":"@ + json_string(model));
    assert(members[1] == json_string("messages"@) + ":"@ + json_array(
        seq![json_message("system"@, system_prompt), json_message("user"@, user_prompt)],
    ));
    assert(members[2] == json_string("temperature"@) + ":"@ + "0.1"@);
}

/// The answer is the content of the message of the first choice, as it stands.
pub proof fn law_the_first_choice_answers(
    document: Json,
    choices: Json,
    choice: Json,
    message: Json,
    content: Json,
)
    requires
        member_of(document, "choices"@) == Some(choices),
        item_of(choices, 0) == Some(choice),
        member_of(choice, "message"@) == Some(message),
        member_of(message, "content"@) == Some(content),
    ensures
        content matches Json::Text(text) ==> content_of(document) == Some(text@) && completed(
            ChatReply::Document(document),
        ) == Ok::<Seq<char>, Seq<char>>(text@),
        !(content is Text) ==> content_of(document) is None,
{
}

/// There is an answer only where a document holds one; and the reason of any
/// error ends in what the client said.
pub proof fn law_nothing_is_answered_without_a_document(reply: ChatReply)
    ensures
        completed(reply) is Ok ==> reply is Document,
        reply matches ChatReply::Document(document) ==> (completed(reply) is Ok) == (content_of(
            document,
        ) is Some),
        reply matches ChatReply::NoClient(message) ==> exists|label: Seq<char>|
            completed(reply) == Err::<Seq<char>, Seq<char>>(#[trigger] (label + message@)),
        reply matches ChatReply::NotAnswered(message) ==> exists|label: Seq<char>|
            completed(reply) == Err::<Seq<char>, Seq<char>>(#[trigger] (label + message@)),
        reply matches ChatReply::NotJson(message) ==> exists|label: Seq<char>|
            completed(reply) == Err::<Seq<char>, Seq<char>>(#[trigger] (label + message@)),
{
}

/// What is configured is taken as it is, and the default only where nothing is.
pub proof fn law_what_is_configured_counts(s: Seq<char>, default: Seq<char>)
    ensures
        or_default(Some(s), default) == s,
        or_default(None, default) == default,
{
}

} // verus!
