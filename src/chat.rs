//! The chat exchange that turns a command and its manual digest into an
//! exercise: the request to send, and the reading of what came back.
use vstd::prelude::*;
use crate::text::append_bytes;

verus! {

/// The model that writes the exercise: `gpt-4o-mini`.
pub open spec fn model_name() -> Seq<u8> {
    seq![103u8, 112, 116, 45, 52, 111, 45, 109, 105, 110, 105]
}

fn model_name_bytes() -> (r: Vec<u8>)
    ensures
        r@ == model_name(),
{
    let r: Vec<u8> = vec![103u8, 112, 116, 45, 52, 111, 45, 109, 105, 110, 105];
    assert(r@ =~= model_name());
    r
}

/// The role of both messages: `system`.
pub open spec fn system_role() -> Seq<u8> {
    seq![115u8, 121, 115, 116, 101, 109]
}

fn system_role_bytes() -> (r: Vec<u8>)
    ensures
        r@ == system_role(),
{
    let r: Vec<u8> = vec![115u8, 121, 115, 116, 101, 109];
    assert(r@ =~= system_role());
    r
}

/// The instruction up to the command's name: `You are a tech teacher ... command '`.
pub open spec fn preamble_head() -> Seq<u8> {
    seq![89u8, 111, 117, 32, 97, 114, 101, 32, 97, 32, 116, 101, 99, 104, 32, 116, 101, 97, 99, 104, 101, 114, 32, 97, 110, 32, 112, 114, 101, 99, 105, 115, 101, 108, 121, 32, 97, 32, 111, 112, 101, 114, 97, 116, 105, 110, 103, 32, 115, 121, 115, 116, 101, 109, 32, 109, 97, 115, 116, 101, 114, 32, 97, 110, 100, 32, 121, 111, 117, 32, 119, 105, 108, 108, 32, 112, 114, 111, 118, 105, 100, 101, 32, 97, 32, 99, 111, 110, 115, 105, 99, 101, 32, 101, 120, 112, 108, 105, 99, 97, 116, 105, 111, 110, 32, 111, 102, 32, 116, 104, 101, 32, 102, 111, 108, 108, 111, 119, 105, 110, 103, 32, 99, 111, 109, 109, 97, 110, 100, 32, 39]
}

fn preamble_head_bytes() -> (r: Vec<u8>)
    ensures
        r@ == preamble_head(),
{
    let r: Vec<u8> = vec![89u8, 111, 117, 32, 97, 114, 101, 32, 97, 32, 116, 101, 99, 104, 32, 116, 101, 97, 99, 104, 101, 114, 32, 97, 110, 32, 112, 114, 101, 99, 105, 115, 101, 108, 121, 32, 97, 32, 111, 112, 101, 114, 97, 116, 105, 110, 103, 32, 115, 121, 115, 116, 101, 109, 32, 109, 97, 115, 116, 101, 114, 32, 97, 110, 100, 32, 121, 111, 117, 32, 119, 105, 108, 108, 32, 112, 114, 111, 118, 105, 100, 101, 32, 97, 32, 99, 111, 110, 115, 105, 99, 101, 32, 101, 120, 112, 108, 105, 99, 97, 116, 105, 111, 110, 32, 111, 102, 32, 116, 104, 101, 32, 102, 111, 108, 108, 111, 119, 105, 110, 103, 32, 99, 111, 109, 109, 97, 110, 100, 32, 39];
    assert(r@ =~= preamble_head());
    r
}

/// The instruction after the command's name: `'.` and the request for an exercise.
pub open spec fn preamble_tail() -> Seq<u8> {
    seq![39u8, 46, 10, 32, 32, 32, 32, 32, 32, 32, 32, 32, 32, 32, 32, 32, 32, 73, 110, 32, 97, 100, 100, 105, 116, 105, 111, 110, 44, 32, 121, 111, 117, 32, 119, 105, 108, 108, 32, 103, 105, 118, 101, 32, 97, 32, 108, 105, 116, 108, 101, 32, 101, 120, 101, 114, 99, 105, 115, 101, 32, 116, 111, 32, 104, 101, 108, 112, 32, 108, 101, 97, 114, 110, 105, 110, 103, 32, 116, 104, 101, 32, 112, 114, 111, 118, 105, 100, 101, 100, 32, 99, 111, 109, 109, 97, 110, 100, 32, 102, 111, 108, 108, 111, 119, 101, 100, 32, 98, 121, 32, 97, 110, 32, 101, 120, 97, 109, 112, 108, 101, 32, 111, 102, 32, 116, 104, 105, 115, 32, 111, 110, 101, 46]
}

fn preamble_tail_bytes() -> (r: Vec<u8>)
    ensures
        r@ == preamble_tail(),
{
    let r: Vec<u8> = vec![39u8, 46, 10, 32, 32, 32, 32, 32, 32, 32, 32, 32, 32, 32, 32, 32, 32, 73, 110, 32, 97, 100, 100, 105, 116, 105, 111, 110, 44, 32, 121, 111, 117, 32, 119, 105, 108, 108, 32, 103, 105, 118, 101, 32, 97, 32, 108, 105, 116, 108, 101, 32, 101, 120, 101, 114, 99, 105, 115, 101, 32, 116, 111, 32, 104, 101, 108, 112, 32, 108, 101, 97, 114, 110, 105, 110, 103, 32, 116, 104, 101, 32, 112, 114, 111, 118, 105, 100, 101, 100, 32, 99, 111, 109, 109, 97, 110, 100, 32, 102, 111, 108, 108, 111, 119, 101, 100, 32, 98, 121, 32, 97, 110, 32, 101, 120, 97, 109, 112, 108, 101, 32, 111, 102, 32, 116, 104, 105, 115, 32, 111, 110, 101, 46];
    assert(r@ =~= preamble_tail());
    r
}

/// What introduces the manual digest.
pub open spec fn manual_head() -> Seq<u8> {
    seq![73u8, 102, 32, 121, 111, 117, 32, 110, 101, 101, 100, 44, 32, 116, 104, 105, 115, 32, 105, 115, 32, 97, 32, 112, 97, 114, 116, 32, 111, 102, 32, 116, 104, 101, 32, 99, 109, 100, 32, 109, 97, 110, 117, 97, 108, 32, 58, 32, 13, 10]
}

fn manual_head_bytes() -> (r: Vec<u8>)
    ensures
        r@ == manual_head(),
{
    let r: Vec<u8> = vec![73u8, 102, 32, 121, 111, 117, 32, 110, 101, 101, 100, 44, 32, 116, 104, 105, 115, 32, 105, 115, 32, 97, 32, 112, 97, 114, 116, 32, 111, 102, 32, 116, 104, 101, 32, 99, 109, 100, 32, 109, 97, 110, 117, 97, 108, 32, 58, 32, 13, 10];
    assert(r@ =~= manual_head());
    r
}

/// What stands in the second message where the digest is empty.
pub open spec fn no_manual_marker() -> Seq<u8> {
    seq![110u8, 111, 32, 109, 97, 110, 117, 97, 108, 32, 99, 111, 110, 116, 101, 110, 116]
}

fn no_manual_marker_bytes() -> (r: Vec<u8>)
    ensures
        r@ == no_manual_marker(),
{
    let r: Vec<u8> = vec![110u8, 111, 32, 109, 97, 110, 117, 97, 108, 32, 99, 111, 110, 116, 101, 110, 116];
    assert(r@ =~= no_manual_marker());
    r
}

/// One role-tagged message of a request.
pub struct RequestMessage {
    pub role: Vec<u8>,
    pub content: Vec<u8>,
}

/// A chat-completion request: the model and its messages, in order.
pub struct ChatRequest {
    pub model: Vec<u8>,
    pub messages: Vec<RequestMessage>,
}

/// One message of a response.
pub struct ChatMessage {
    pub role: String,
    pub content: String,
}

/// One candidate completion of a response.
pub struct ChatChoice {
    pub index: u32,
    pub message: ChatMessage,
    pub finish_reason: String,
}

/// The success shape of a response.
pub struct ChatResponse {
    pub id: String,
    pub model: String,
    pub created: u64,
    pub choices: Vec<ChatChoice>,
}

/// The error shape of a response: the remote service's own report.
pub struct ChatErrorResponse {
    pub error_type: String,
    pub code: Option<String>,
    pub message: String,
    pub param: Option<String>,
}

/// Why no exercise came out of a response.
pub enum ExerciseError {
    /// The service reported an error.
    Remote(ChatErrorResponse),
    /// The response had neither expected shape.
    UnknownShape,
    /// The response held no choice.
    NoChoice,
}

/// The instruction that names the command to teach.
pub open spec fn explanation(cmd: Seq<u8>) -> Seq<u8> {
    preamble_head() + cmd + preamble_tail()
}

/// The message that carries the digest, or the marker where it is empty.
pub open spec fn manual_message(digest: Seq<u8>) -> Seq<u8> {
    manual_head() + if digest.len() == 0 {
        no_manual_marker()
    } else {
        digest
    }
}

/// The exercise that a response gives: the content of its first choice.
pub open spec fn exercise_result(
    success: Option<ChatResponse>,
    failure: Option<ChatErrorResponse>,
) -> Result<String, ExerciseError> {
    match success {
        Some(s) => if s.choices@.len() > 0 {
            Ok(s.choices@[0].message.content)
        } else {
            Err(ExerciseError::NoChoice)
        },
        None => match failure {
            Some(f) => Err(ExerciseError::Remote(f)),
            None => Err(ExerciseError::UnknownShape),
        },
    }
}

fn system_message(content: Vec<u8>) -> (r: RequestMessage)
    ensures
        r.role@ == system_role(),
        r.content@ == content@,
{
    RequestMessage { role: system_role_bytes(), content }
}

/// The request that asks for an exercise on `cmd`, given its manual digest:
/// the fixed model and exactly two system messages, the instruction and the
/// digest.
pub fn new_exercise_request(cmd: &[u8], cmd_man: &[u8]) -> (r: ChatRequest)
    requires
        cmd@.len() <= usize::MAX / 2,
        cmd_man@.len() <= usize::MAX / 2,
    ensures
        r.model@ == model_name(),
        r.messages@.len() == 2,
        r.messages@[0].role@ == system_role(),
        r.messages@[0].content@ == explanation(cmd@),
        r.messages@[1].role@ == system_role(),
        r.messages@[1].content@ == manual_message(cmd_man@),
{
    let mut explained = preamble_head_bytes();
    append_bytes(&mut explained, cmd);
    let tail = preamble_tail_bytes();
    append_bytes(&mut explained, tail.as_slice());
    let mut doc = manual_head_bytes();
    if cmd_man.len() == 0 {
        let marker = no_manual_marker_bytes();
        append_bytes(&mut doc, marker.as_slice());
    } else {
        append_bytes(&mut doc, cmd_man);
    }
    let mut messages: Vec<RequestMessage> = Vec::new();
    messages.push(system_message(explained));
    messages.push(system_message(doc));
    ChatRequest { model: model_name_bytes(), messages }
}

/// The exercise from a response, given what it read as in each shape: the
/// success shape wins; its first choice's content is the exercise.
pub fn exercise_text(success: Option<ChatResponse>, failure: Option<ChatErrorResponse>) -> (r:
    Result<String, ExerciseError>)
    ensures
        r == exercise_result(success, failure),
{
    match success {
        Some(s) => {
            let mut choices = s.choices;
            if choices.len() == 0 {
                Err(ExerciseError::NoChoice)
            } else {
                let first = choices.swap_remove(0);
                Ok(first.message.content)
            }
        },
        None => match failure {
            Some(f) => Err(ExerciseError::Remote(f)),
            None => Err(ExerciseError::UnknownShape),
        },
    }
}

} // verus!
