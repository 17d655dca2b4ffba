//! The outbound request that an operation of a binding describes, and the
//! paths that the operations share.

use vstd::prelude::*;
use vstd::string::StringExecFns;
use crate::percent::{encode_segment, is_segment_char, lemma_segment_brings_none, push_encoded};
use crate::text::{lemma_occurrences_concat, occurrences};
use crate::query::{form_query, QueryArgs};

verus! {

/// The transport's entry point that a request is handed to.
#[derive(Clone, Copy, Debug, PartialEq, Eq, Structural)]
pub enum Method {
    /// One `GET`.
    Get,
    /// `GET`, repeated by the transport until the last page has come.
    GetAllPages,
    /// One `POST`.
    Post,
    /// One `PUT`.
    Put,
    /// One `DELETE`.
    Delete,
}

/// One outbound request: where it goes, how, and what it carries.
#[derive(Debug)]
pub struct Request {
    pub method: Method,
    /// The path, with its query where the operation has one.
    pub url: String,
    /// The JSON payload, where the operation has one.
    pub body: Option<Vec<u8>>,
}

impl Request {
    /// Whether the request is the given one.
    pub open spec fn carries(&self, method: Method, url: Seq<char>, body: Option<Vec<u8>>) -> bool {
        &&& self.method == method
        &&& self.url@ == url
        &&& self.body == body
    }
}

/// A path with one identifier in it.
pub open spec fn path_of_one(prefix: Seq<char>, id: Seq<char>) -> Seq<char> {
    prefix + encode_segment(id)
}

/// A path with two identifiers in it: each is encoded by itself, and the
/// text around them is taken as it stands.
pub open spec fn path_of_two(
    prefix: Seq<char>,
    first: Seq<char>,
    middle: Seq<char>,
    second: Seq<char>,
    suffix: Seq<char>,
) -> Seq<char> {
    prefix + encode_segment(first) + middle + encode_segment(second) + suffix
}

/// A path followed by `?` and a query. The `?` is there also when the query
/// is empty.
pub open spec fn path_with_query(path: Seq<char>, pairs: Seq<(Seq<char>, Seq<char>)>) -> Seq<
    char,
> {
    path + seq!['?'] + form_query(pairs)
}

/// Builds a path with one identifier.
pub fn fill_one(prefix: &str, id: &str) -> (path: String)
    ensures
        path@ == path_of_one(prefix@, id@),
{
    let mut path = prefix.to_owned();
    push_encoded(&mut path, id.as_bytes());
    path
}

/// Builds a path with two identifiers.
pub fn fill_two(prefix: &str, first: &str, middle: &str, second: &str, suffix: &str) -> (path:
    String)
    ensures
        path@ == path_of_two(prefix@, first@, middle@, second@, suffix@),
{
    let mut path = prefix.to_owned();
    push_encoded(&mut path, first.as_bytes());
    path.append(middle);
    push_encoded(&mut path, second.as_bytes());
    path.append(suffix);
    path
}

/// Puts `?` and the encoded arguments behind a path.
pub fn append_query(path: &str, args: &QueryArgs) -> (url: String)
    ensures
        url@ == path_with_query(path@, args@),
{
    let mut url = path.to_owned();
    url.push('?');
    let query = args.encode();
    url.append(query.as_str());
    url
}

/// In a path of two identifiers, a character that no encoded segment is made
/// of (`/`, `?`, `#` among them) stands exactly as often as in the text
/// around the identifiers: nothing that an identifier holds adds or moves a
/// delimiter.
pub proof fn lemma_path_keeps_delimiters(
    prefix: Seq<char>,
    first: Seq<char>,
    middle: Seq<char>,
    second: Seq<char>,
    suffix: Seq<char>,
    c: char,
)
    requires
        !is_segment_char(c),
    ensures
        occurrences(path_of_two(prefix, first, middle, second, suffix), c) == occurrences(
            prefix,
            c,
        ) + occurrences(middle, c) + occurrences(suffix, c),
        occurrences(path_of_one(prefix, first), c) == occurrences(prefix, c),
{
    let a = encode_segment(first);
    let b = encode_segment(second);
    lemma_segment_brings_none(first, c);
    lemma_segment_brings_none(second, c);
    lemma_occurrences_concat(prefix, a, c);
    lemma_occurrences_concat(prefix + a, middle, c);
    lemma_occurrences_concat(prefix + a + middle, b, c);
    lemma_occurrences_concat(prefix + a + middle + b, suffix, c);
}

} // verus!
