//! Administration of custom emoji.

use vstd::prelude::*;
use crate::query::{
    count_name, lemma_count_with_number, lemma_count_with_text, with_number, with_text, QueryArgs,
};
use crate::request::{append_query, path_with_query, Method, Request};
use crate::text::decimal;

verus! {

/// The query arguments of the emoji list: `cursor`, `limit`, in this order,
/// each only where it is present.
pub open spec fn list_args(cursor: Seq<char>, limit: i64) -> Seq<(Seq<char>, Seq<char>)> {
    with_number(with_text(Seq::empty(), "cursor"@, cursor), "limit"@, limit as int)
}

/// The operations on custom emoji, around a handle to the transport.
pub struct AdminEmoji<C> {
    pub client: C,
}

impl<C> AdminEmoji<C> {
    /// A binding around the given handle.
    pub fn new(client: C) -> (binding: Self)
        ensures
            binding.client == client,
    {
        AdminEmoji { client }
    }

    fn bare_post(path: &str) -> (request: Request)
        ensures
            request.carries(Method::Post, path@, None),
    {
        Request { method: Method::Post, url: path.to_owned(), body: None }
    }

    /// Adds an emoji: `POST /admin.emoji.add`.
    pub fn add(&self) -> (request: Request)
        ensures
            request.carries(Method::Post, "/admin.emoji.add"@, None),
    {
        Self::bare_post("/admin.emoji.add")
    }

    /// Adds an emoji alias: `POST /admin.emoji.addAlias`.
    pub fn add_alias(&self) -> (request: Request)
        ensures
            request.carries(Method::Post, "/admin.emoji.addAlias"@, None),
    {
        Self::bare_post("/admin.emoji.addAlias")
    }

    /// Lists the emoji of an organization: `GET /admin.emoji.list`. An empty
    /// cursor and a limit of zero or below are left out of the query.
    pub fn list(&self, cursor: &str, limit: i64) -> (request: Request)
        ensures
            request.carries(
                Method::Get,
                path_with_query("/admin.emoji.list"@, list_args(cursor@, limit)),
                None,
            ),
    {
        let mut args = QueryArgs::new();
        args.add_text("cursor", cursor);
        args.add_number("limit", limit);
        Request { method: Method::Get, url: append_query("/admin.emoji.list", &args), body: None }
    }

    /// Removes an emoji: `POST /admin.emoji.remove`.
    pub fn remove(&self) -> (request: Request)
        ensures
            request.carries(Method::Post, "/admin.emoji.remove"@, None),
    {
        Self::bare_post("/admin.emoji.remove")
    }

    /// Renames an emoji: `POST /admin.emoji.rename`.
    pub fn rename(&self) -> (request: Request)
        ensures
            request.carries(Method::Post, "/admin.emoji.rename"@, None),
    {
        Self::bare_post("/admin.emoji.rename")
    }
}

/// In the arguments of the emoji list each of the two names stands once
/// where its field is present, and not at all where the field is empty or
/// not above zero.
pub proof fn lemma_list_args_names(cursor: Seq<char>, limit: i64)
    ensures
        count_name(list_args(cursor, limit), "cursor"@) == if cursor.len() > 0 {
            1nat
        } else {
            0nat
        },
        count_name(list_args(cursor, limit), "limit"@) == if limit > 0 {
            1nat
        } else {
            0nat
        },
        cursor.len() > 0 ==> list_args(cursor, limit).contains(("cursor"@, cursor)),
        limit > 0 ==> list_args(cursor, limit).contains(("limit"@, decimal(limit as int))),
{
    reveal_strlit("cursor");
    reveal_strlit("limit");
    let none = Seq::<(Seq<char>, Seq<char>)>::empty();
    let one = with_text(none, "cursor"@, cursor);
    assert("cursor"@.len() != "limit"@.len());
    lemma_count_with_text(none, "cursor"@, cursor, "cursor"@);
    lemma_count_with_text(none, "cursor"@, cursor, "limit"@);
    lemma_count_with_number(one, "limit"@, limit as int, "cursor"@);
    lemma_count_with_number(one, "limit"@, limit as int, "limit"@);
}

} // verus!
