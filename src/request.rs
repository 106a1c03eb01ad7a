//! The checks that request builders make before a request is sent.
use vstd::prelude::*;

use crate::chat::{append_stop, Message, Stop};
use crate::content::opt_text;
use crate::error::Error;

verus! {

/// A chat completion request needs a model and at least one message; this
/// returns the model.
pub fn check_chat_request(model: Option<String>, messages: &Vec<Message>) -> (r: Result<String, Error>)
    ensures
        r is Ok <==> model is Some && messages@.len() > 0,
        match r {
            Ok(m) => Some(m@) == opt_text(model),
            Err(e) => e == Error::ChatCompletionRequestBuild,
        },
{
    match model {
        Some(m) => if messages.len() == 0 {
            Err(Error::ChatCompletionRequestBuild)
        } else {
            Ok(m)
        },
        None => Err(Error::ChatCompletionRequestBuild),
    }
}

/// An image generation request needs a model and a prompt; this returns
/// both.
pub fn check_generation_request(model: Option<String>, prompt: Option<String>) -> (r: Result<(String, String), Error>)
    ensures
        r is Ok <==> model is Some && prompt is Some,
        match r {
            Ok((m, p)) => Some(m@) == opt_text(model) && Some(p@) == opt_text(prompt),
            Err(e) => e == Error::GenerationRequestBuild,
        },
{
    match (model, prompt) {
        (Some(m), Some(p)) => Ok((m, p)),
        _ => Err(Error::GenerationRequestBuild),
    }
}

/// The stop sequences after adding `rhs` to those held, if any.
pub fn add_stop(held: Option<Stop>, rhs: Stop) -> (r: Stop)
    ensures
        r@ == match held {
            Some(lhs) => append_stop(lhs@, rhs@),
            None => rhs@,
        },
{
    match held {
        Some(lhs) => lhs.append(rhs),
        None => rhs,
    }
}

} // verus!
