//! Finding the generated text in a response document, whichever of the
//! known shapes the document has.

use vstd::prelude::*;
use vstd::string::*;
use crate::json::{models_of, Json, JsonModel};
use crate::text::{join, joined, texts_of};

verus! {

/// The text that a message carries: the string under `text` in the first
/// part of the list under `content`.
pub open spec fn message_text(message: JsonModel) -> Option<Seq<char>> {
    match message.field("content"@) {
        Some(JsonModel::Array(parts)) => if parts.len() > 0 {
            match parts[0].field("text"@) {
                Some(JsonModel::Text(text)) => Some(text),
                _ => None,
            }
        } else {
            None
        },
        _ => None,
    }
}

/// The text of the first of `messages` that carries one.
pub open spec fn first_message_text(messages: Seq<JsonModel>) -> Option<Seq<char>>
    decreases messages.len(),
{
    if messages.len() == 0 {
        None
    } else if message_text(messages[0]) is Some {
        message_text(messages[0])
    } else {
        first_message_text(messages.drop_first())
    }
}

/// The strings among `items`, in order.
pub open spec fn texts_among(items: Seq<JsonModel>) -> Seq<Seq<char>>
    decreases items.len(),
{
    if items.len() == 0 {
        Seq::empty()
    } else {
        match items.last() {
            JsonModel::Text(text) => texts_among(items.drop_last()).push(text),
            _ => texts_among(items.drop_last()),
        }
    }
}

/// What the field `output` yields: the text of the first message that
/// carries one where it is a list, the text of the message where it is a
/// single object.
pub open spec fn text_from_output(doc: JsonModel) -> Option<Seq<char>> {
    match doc.field("output"@) {
        Some(JsonModel::Array(messages)) => first_message_text(messages),
        Some(JsonModel::Object(entries)) => message_text(JsonModel::Object(entries)),
        _ => None,
    }
}

/// What the field `output_text` yields: itself where it is a string; where
/// it is a list, the strings in it joined by line feeds, unless that is
/// empty.
pub open spec fn text_from_output_text(doc: JsonModel) -> Option<Seq<char>> {
    match doc.field("output_text"@) {
        Some(JsonModel::Text(text)) => Some(text),
        Some(JsonModel::Array(items)) => {
            let joined = joined(texts_among(items), seq!['\n']);
            if joined.len() > 0 {
                Some(joined)
            } else {
                None
            }
        },
        _ => None,
    }
}

/// The generated text of a response document: what `output` yields, else
/// what `output_text` yields.
pub open spec fn extracted(doc: JsonModel) -> Option<Seq<char>> {
    if text_from_output(doc) is Some {
        text_from_output(doc)
    } else {
        text_from_output_text(doc)
    }
}

/// The text that `message` carries.
pub fn text_of_message(message: &Json) -> (text: Option<&String>)
    ensures
        match text {
            Some(text) => message_text(message@) == Some(text@),
            None => message_text(message@) is None,
        },
{
    let content = match message.get("content") {
        Some(content) => content,
        None => { return None; },
    };
    let parts = match content.as_array() {
        Some(parts) => parts,
        None => { return None; },
    };
    if parts.len() == 0 {
        return None;
    }
    match parts[0].get("text") {
        Some(value) => value.as_text(),
        None => None,
    }
}

/// The text of the first of `messages` that carries one.
pub fn text_of_first_message(messages: &Vec<Json>) -> (text: Option<&String>)
    ensures
        match text {
            Some(text) => first_message_text(models_of(messages@)) == Some(text@),
            None => first_message_text(models_of(messages@)) is None,
        },
{
    let ghost models = models_of(messages@);
    let mut i: usize = 0;
    assert(models.skip(0) =~= models);
    while i < messages.len()
        invariant
            i <= messages.len(),
            models == models_of(messages@),
            first_message_text(models) == first_message_text(models.skip(i as int)),
        decreases messages.len() - i,
    {
        assert(models.skip(i as int).drop_first() =~= models.skip(i + 1));
        assert(models.skip(i as int)[0] == messages@[i as int]@);
        let found = text_of_message(&messages[i]);
        if found.is_some() {
            return found;
        }
        i += 1;
    }
    None
}

/// The strings among `items`, in order.
pub fn texts_in(items: &Vec<Json>) -> (texts: Vec<String>)
    ensures
        texts_of(texts@) == texts_among(models_of(items@)),
{
    let ghost models = models_of(items@);
    let mut texts: Vec<String> = Vec::new();
    let mut i: usize = 0;
    assert(models.take(0) =~= Seq::<JsonModel>::empty());
    assert(texts_of(texts@) =~= Seq::<Seq<char>>::empty());
    while i < items.len()
        invariant
            i <= items.len(),
            models == models_of(items@),
            texts_of(texts@) == texts_among(models.take(i as int)),
        decreases items.len() - i,
    {
        assert(models.take(i + 1).drop_last() =~= models.take(i as int));
        assert(models.take(i + 1).last() == items@[i as int]@);
        match items[i].as_text() {
            Some(text) => {
                let ghost before = texts@;
                texts.push(text.clone());
                assert(texts_of(texts@) =~= texts_of(before).push(text@));
            },
            None => {},
        }
        i += 1;
    }
    assert(models.take(items.len() as int) =~= models);
    texts
}

/// Looks for the generated text in `value`, trying the known shapes in
/// order: under `output` a list of messages, under `output` one message,
/// under `output_text` a string, under `output_text` a list of strings.
pub fn extract_text(value: &Json) -> (text: Option<String>)
    ensures
        match text {
            Some(text) => extracted(value@) == Some(text@),
            None => extracted(value@) is None,
        },
{
    match value.get("output") {
        Some(output) => {
            let found = match output.as_array() {
                Some(messages) => text_of_first_message(messages),
                None => if output.is_object() {
                    text_of_message(output)
                } else {
                    None
                },
            };
            match found {
                Some(text) => { return Some(text.clone()); },
                None => {},
            }
        },
        None => {},
    }
    match value.get("output_text") {
        Some(fallback) => {
            match fallback.as_text() {
                Some(text) => { return Some(text.clone()); },
                None => {},
            }
            match fallback.as_array() {
                Some(items) => {
                    proof {
                        reveal_strlit("\n");
                    }
                    assert("\n"@ =~= seq!['\n']);
                    let joined = join(&texts_in(items), "\n");
                    if !joined.as_str().is_empty() {
                        return Some(joined);
                    }
                },
                None => {},
            }
            None
        },
        None => None,
    }
}

/// A text found under `output` is the result, whatever stands under
/// `output_text`.
pub proof fn lemma_output_wins(doc: JsonModel)
    requires
        text_from_output(doc) is Some,
    ensures
        extracted(doc) == text_from_output(doc),
{
}

/// Without a text under `output`, the result is what `output_text`
/// yields.
pub proof fn lemma_output_text_is_fallback(doc: JsonModel)
    requires
        text_from_output(doc) is None,
    ensures
        extracted(doc) == text_from_output_text(doc),
{
}

} // verus!
