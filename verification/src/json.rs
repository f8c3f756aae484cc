//! JSON texts of string lists: the form in which sets of conversation ids are
//! persisted.

use crate::table::views;
use vstd::prelude::*;

verus! {

#[verifier::external_type_specification]
#[verifier::external_body]
pub struct ExJsonError(serde_json::Error);

/// What `serde_json::from_str` makes of a text when a list of strings is
/// asked for: the list, or nothing where it reports an error.
pub uninterp spec fn parsed_string_list(text: Seq<char>) -> Option<Seq<Seq<char>>>;

/// What `serde_json::to_string` makes of a list of strings: the text, or
/// nothing where it reports an error.
pub uninterp spec fn printed_string_list(items: Seq<Seq<char>>) -> Option<Seq<char>>;

/// Calls `serde_json::from_str` for a `Vec<String>`. The contract only gives
/// the outcome its name, `parsed_string_list`: that the same text always
/// parses to the same list or fails.
#[verifier::external_body]
pub(crate) fn parse_string_list(text: &str) -> (parsed: Result<Vec<String>, serde_json::Error>)
    ensures
        match parsed {
            Ok(items) => parsed_string_list(text@) == Some(views(items@)),
            Err(_) => parsed_string_list(text@).is_none(),
        },
{
    serde_json::from_str::<Vec<String>>(text)
}

/// Calls `serde_json::to_string` on a `Vec<String>`. The contract only gives
/// the outcome its name, `printed_string_list`: that the same list always
/// prints to the same text or fails.
#[verifier::external_body]
pub(crate) fn print_string_list(items: &Vec<String>) -> (printed: Result<
    String,
    serde_json::Error,
>)
    ensures
        match printed {
            Ok(text) => printed_string_list(views(items@)) == Some(text@),
            Err(_) => printed_string_list(views(items@)).is_none(),
        },
{
    serde_json::to_string(items)
}

/// The list that stands for a parse outcome: a failed parse counts as the
/// empty list.
pub open spec fn list_or_empty(parsed: Option<Seq<Seq<char>>>) -> Seq<Seq<char>> {
    match parsed {
        Some(items) => items,
        None => Seq::empty(),
    }
}

/// The text that stands for a print outcome: a failed print counts as the
/// empty text.
pub open spec fn text_or_empty(printed: Option<Seq<char>>) -> Seq<char> {
    match printed {
        Some(text) => text,
        None => Seq::empty(),
    }
}

/// The list of ids that a persisted text holds. An absent text, an empty
/// text and a text that does not parse all stand for the empty list.
pub open spec fn decoded_ids(text: Option<Seq<char>>) -> Seq<Seq<char>> {
    match text {
        Some(t) => if t.len() == 0 {
            Seq::empty()
        } else {
            list_or_empty(parsed_string_list(t))
        },
        None => Seq::empty(),
    }
}

/// Turns a parse outcome into a list: what was parsed, or the empty list.
pub fn ids_or_empty(parsed: Option<Vec<String>>) -> (ids: Vec<String>)
    ensures
        views(ids@) == list_or_empty(
            match parsed {
                Some(items) => Some(views(items@)),
                None => None,
            },
        ),
{
    match parsed {
        Some(items) => items,
        None => {
            let ids: Vec<String> = Vec::new();
            proof {
                assert(views(ids@) =~= Seq::<Seq<char>>::empty());
            }
            ids
        },
    }
}

/// Turns a print outcome into a text: what was printed, or the empty text.
pub fn printed_or_empty(printed: Option<String>) -> (text: String)
    ensures
        text@ == text_or_empty(
            match printed {
                Some(t) => Some(t@),
                None => None,
            },
        ),
{
    match printed {
        Some(t) => t,
        None => String::new(),
    }
}

/// Reads a persisted list of ids. Malformed or absent data is read as the
/// empty list.
pub fn decode_ids(text: Option<&str>) -> (ids: Vec<String>)
    ensures
        views(ids@) == decoded_ids(
            match text {
                Some(t) => Some(t@),
                None => None,
            },
        ),
{
    match text {
        Some(t) => {
            if t.is_empty() {
                ids_or_empty(None)
            } else {
                match parse_string_list(t) {
                    Ok(items) => ids_or_empty(Some(items)),
                    Err(_) => ids_or_empty(None),
                }
            }
        },
        None => ids_or_empty(None),
    }
}

/// Writes a list of ids as the text to persist; a list that cannot be
/// printed is written as the empty text.
pub fn encode_ids(ids: &Vec<String>) -> (text: String)
    ensures
        text@ == text_or_empty(printed_string_list(views(ids@))),
{
    match print_string_list(ids) {
        Ok(text) => printed_or_empty(Some(text)),
        Err(_) => printed_or_empty(None),
    }
}

} // verus!
