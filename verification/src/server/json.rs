//! A share's list as it is stored: JSON text.

use vstd::prelude::*;

#[allow(unused_imports)]
use crate::text::views;

verus! {

/// The JSON text that `serde_json::to_string` writes for a list of texts.
pub uninterp spec fn json_of_list(list: Seq<Seq<char>>) -> Seq<char>;

/// The list of texts that `serde_json::from_str` reads; `None` where it refuses the text.
pub uninterp spec fn list_of_json(json: Seq<char>) -> Option<Seq<Seq<char>>>;

/// `serde_json::to_string` of a list of texts. It fails only where a `Serialize` impl or the
/// writer does, and a list of strings written to memory is neither; so it answers with the text,
/// which `serde_json::from_str` reads back as the same list.
#[verifier::external_body]
pub(crate) fn write_list(list: &Vec<String>) -> (r: Option<String>)
    ensures
        r is Some,
        r->0@ == json_of_list(views(list@)),
        list_of_json(r->0@) == Some(views(list@)),
{
    serde_json::to_string(list).ok()
}

/// `serde_json::from_str` into a list of texts: what it reads depends on the text alone.
#[verifier::external_body]
pub(crate) fn read_list(json: &str) -> (r: Option<Vec<String>>)
    ensures
        r is Some == list_of_json(json@) is Some,
        r is Some ==> list_of_json(json@) == Some(views(r->0@)),
{
    serde_json::from_str::<Vec<String>>(json).ok()
}

} // verus!
