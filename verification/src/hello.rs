use vstd::prelude::*;
use vstd::utf8::encode_utf8;
use crate::propagation::{inject, injected, Carrier, SpanContext};
use crate::text::{decimal_text, push_decimal};

verus! {

// The least and the greatest accepted length, in bytes, of the name of the
// person and of the message.

pub const PERSON_MIN_LENGTH: usize = 1;

pub const PERSON_MAX_LENGTH: usize = 20;

pub const MESSAGE_MIN_LENGTH: usize = 3;

pub const MESSAGE_MAX_LENGTH: usize = 32;

/// The status code of a response that succeeded.
pub const STATUS_OK: u16 = 200;

/// The status code of a response to a request that cannot be served as it
/// is.
pub const STATUS_BAD_REQUEST: u16 = 400;

/// The path of the greeting endpoint of the remote service, below its base
/// address.
pub const REMOTE_HELLO_PATH: &'static str = "/api/v0/hello";

/// The number of bytes that `text` takes.
pub open spec fn byte_length(text: Seq<char>) -> nat {
    encode_utf8(text).len()
}

/// The fixed greeting.
pub fn hello() -> (greeting: &'static str)
    ensures
        greeting@ == "Hello, World!"@,
{
    "Hello, World!"
}

/// Who is greeted, and with what.
#[derive(Clone, Debug)]
pub struct GreetContent {
    pub person: String,
    pub message: String,
}

/// Why a greeting was refused.
#[derive(Clone, Copy, Debug, PartialEq, Eq, Structural)]
pub enum GreetContentError {
    InvalidPerson,
    InvalidMessage,
}

/// A greeting, ready to be sent.
#[derive(Clone, Debug)]
pub struct GreetResponse {
    pub greeting: String,
}

/// Whether `person` can be greeted: a name of 1 to 20 bytes.
pub open spec fn valid_person(person: Seq<char>) -> bool {
    PERSON_MIN_LENGTH <= byte_length(person) <= PERSON_MAX_LENGTH
}

/// Whether `message` can be sent along: a text of 3 to 32 bytes.
pub open spec fn valid_message(message: Seq<char>) -> bool {
    MESSAGE_MIN_LENGTH <= byte_length(message) <= MESSAGE_MAX_LENGTH
}

/// The greeting for `person` with `message`.
pub open spec fn greeting_text(person: Seq<char>, message: Seq<char>) -> Seq<char> {
    "\u{3084}\u{3041} "@ + person + ", "@ + message
}

/// The text that says between which lengths `what` must lie.
pub open spec fn length_error_text(what: Seq<char>, least: nat, most: nat) -> Seq<char> {
    what + " length must be between "@ + decimal_text(least) + " and "@ + decimal_text(most)
}

impl GreetContent {
    /// Both parts have an accepted length.
    pub open spec fn well_formed(&self) -> bool {
        valid_person(self.person@) && valid_message(self.message@)
    }

    /// The content of a greeting, if both parts have an accepted length. The
    /// name is looked at first.
    pub fn try_new(person: String, message: String) -> (content: Result<
        GreetContent,
        GreetContentError,
    >)
        ensures
            match content {
                Ok(c) => valid_person(person@) && valid_message(message@) && c.person@ == person@
                    && c.message@ == message@ && c.well_formed(),
                Err(GreetContentError::InvalidPerson) => !valid_person(person@),
                Err(GreetContentError::InvalidMessage) => valid_person(person@) && !valid_message(
                    message@,
                ),
            },
    {
        let person_length = person.as_str().as_bytes().len();
        if person_length < PERSON_MIN_LENGTH || person_length > PERSON_MAX_LENGTH {
            return Err(GreetContentError::InvalidPerson);
        }
        let message_length = message.as_str().as_bytes().len();
        if message_length < MESSAGE_MIN_LENGTH || message_length > MESSAGE_MAX_LENGTH {
            return Err(GreetContentError::InvalidMessage);
        }
        Ok(GreetContent { person, message })
    }
}

impl GreetResponse {
    /// The greeting for the person and with the message of `greet_content`.
    pub fn create_greeting(greet_content: &GreetContent) -> (response: GreetResponse)
        ensures
            response.greeting@ == greeting_text(greet_content.person@, greet_content.message@),
    {
        let mut greeting = "\u{3084}\u{3041} ".to_owned();
        greeting.append(greet_content.person.as_str());
        greeting.append(", ");
        greeting.append(greet_content.message.as_str());
        GreetResponse { greeting }
    }
}

/// The text that says between which lengths `what` must lie.
fn length_error(what: &str, least: usize, most: usize) -> (text: String)
    ensures
        text@ == length_error_text(what@, least as nat, most as nat),
{
    let mut text = what.to_owned();
    text.append(" length must be between ");
    push_decimal(&mut text, least as u64);
    text.append(" and ");
    push_decimal(&mut text, most as u64);
    text
}

/// Answers a request for a greeting: the greeting with the status of
/// success, or the status of a bad request with the text that says which
/// part has a length that is not accepted.
pub fn greet(person: String, message: String) -> (answer: Result<
    (u16, GreetResponse),
    (u16, String),
>)
    ensures
        match answer {
            Ok((status, response)) => {
                &&& valid_person(person@) && valid_message(message@)
                &&& status == STATUS_OK
                &&& response.greeting@ == greeting_text(person@, message@)
            },
            Err((status, text)) => {
                &&& status == STATUS_BAD_REQUEST
                &&& !(valid_person(person@) && valid_message(message@))
                &&& text@ == if !valid_person(person@) {
                    length_error_text(
                        "person"@,
                        PERSON_MIN_LENGTH as nat,
                        PERSON_MAX_LENGTH as nat,
                    )
                } else {
                    length_error_text(
                        "message"@,
                        MESSAGE_MIN_LENGTH as nat,
                        MESSAGE_MAX_LENGTH as nat,
                    )
                }
            },
        },
{
    match GreetContent::try_new(person, message) {
        Ok(content) => Ok((STATUS_OK, GreetResponse::create_greeting(&content))),
        Err(GreetContentError::InvalidPerson) => Err(
            (STATUS_BAD_REQUEST, length_error("person", PERSON_MIN_LENGTH, PERSON_MAX_LENGTH)),
        ),
        Err(GreetContentError::InvalidMessage) => Err(
            (STATUS_BAD_REQUEST, length_error("message", MESSAGE_MIN_LENGTH, MESSAGE_MAX_LENGTH)),
        ),
    }
}

/// The address of the greeting endpoint of the remote service at
/// `endpoint`.
pub fn remote_hello_url(endpoint: &str) -> (url: String)
    ensures
        url@ == endpoint@ + REMOTE_HELLO_PATH@,
{
    let mut url = endpoint.to_owned();
    url.append(REMOTE_HELLO_PATH);
    url
}

/// The headers of the call to the remote service: the context of the
/// calling span, so that the remote span becomes its child. Without a
/// context, or with one that is not valid, the call carries none.
pub fn remote_hello_headers(context: &Option<SpanContext>) -> (headers: Carrier)
    ensures
        headers@ == match *context {
            Some(c) => injected(Seq::empty(), c),
            None => Seq::empty(),
        },
{
    let mut headers = Carrier::new();
    match context {
        Some(c) => {
            inject(c, &mut headers);
        },
        None => {},
    }
    headers
}

/// The answer to the caller after the call to the remote service: what the
/// remote service said, or a text that describes why the call failed.
pub open spec fn remote_hello_text(outcome: Result<String, String>) -> Seq<char> {
    match outcome {
        Ok(body) => body@,
        Err(reason) => "Error calling remote endpoint: "@ + reason@,
    }
}

/// The answer to the caller after the call to the remote service.
pub fn remote_hello_reply(outcome: Result<String, String>) -> (reply: String)
    ensures
        reply@ == remote_hello_text(outcome),
{
    match outcome {
        Ok(body) => body,
        Err(reason) => {
            let mut reply = "Error calling remote endpoint: ".to_owned();
            reply.append(reason.as_str());
            reply
        },
    }
}

} // verus!
