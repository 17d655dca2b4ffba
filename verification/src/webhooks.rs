//! Webhook subscriptions.

use vstd::prelude::*;
use crate::query::{
    count_name, lemma_count_with_number, lemma_count_with_text, with_number, with_text, QueryArgs,
};
use crate::percent::lemma_number_segment;
use crate::request::{append_query, fill_one, path_with_query, Method, Request};
use crate::text::{decimal, signed_to_string};

verus! {

/// The query arguments of one page of webhooks: `Limit`, `Page`, `Topic`, in
/// this order, each only where it is present.
pub open spec fn page_args(topic: Seq<char>, page: u64, limit: i64) -> Seq<(Seq<char>, Seq<char>)> {
    with_text(
        with_number(with_number(Seq::empty(), "Limit"@, limit as int), "Page"@, page as int),
        "Topic"@,
        topic,
    )
}

/// The query arguments of the list of all webhooks: `Topic`, where it is
/// present.
pub open spec fn all_args(topic: Seq<char>) -> Seq<(Seq<char>, Seq<char>)> {
    with_text(Seq::empty(), "Topic"@, topic)
}

/// The operations on webhook subscriptions, around a handle to the
/// transport.
pub struct Webhooks<C> {
    pub client: C,
}

impl<C> Webhooks<C> {
    /// A binding around the given handle.
    pub fn new(client: C) -> (binding: Self)
        ensures
            binding.client == client,
    {
        Webhooks { client }
    }

    /// Gets one page of webhooks: `GET /webhook`. The topic is given as the
    /// text that stands for it on the wire; an empty topic, a page of zero
    /// and a limit of zero or below are left out of the query.
    pub fn get_page(&self, topic: &str, page: u64, limit: i64) -> (request: Request)
        ensures
            request.carries(
                Method::Get,
                path_with_query("/webhook"@, page_args(topic@, page, limit)),
                None,
            ),
    {
        let mut args = QueryArgs::new();
        args.add_number("Limit", limit);
        args.add_count("Page", page);
        args.add_text("Topic", topic);
        Request { method: Method::Get, url: append_query("/webhook", &args), body: None }
    }

    /// Gets all webhooks, every page of them: `GET /webhook`, handed to the
    /// transport's entry point for paged lists.
    pub fn get_all(&self, topic: &str) -> (request: Request)
        ensures
            request.carries(
                Method::GetAllPages,
                path_with_query("/webhook"@, all_args(topic@)),
                None,
            ),
    {
        let mut args = QueryArgs::new();
        args.add_text("Topic", topic);
        Request { method: Method::GetAllPages, url: append_query("/webhook", &args), body: None }
    }

    /// Creates a webhook subscription from the given JSON body:
    /// `POST /webhook`.
    pub fn post(&self, body: Vec<u8>) -> (request: Request)
        ensures
            request.carries(Method::Post, "/webhook"@, Some(body)),
    {
        Request { method: Method::Post, url: "/webhook".to_owned(), body: Some(body) }
    }

    /// Deletes a webhook subscription: `DELETE /webhook/{id}`.
    pub fn delete(&self, id: i64) -> (request: Request)
        ensures
            request.carries(Method::Delete, "/webhook/"@ + decimal(id as int), None),
    {
        let id_text = signed_to_string(id);
        proof {
            lemma_number_segment(id as int);
        }
        Request { method: Method::Delete, url: fill_one("/webhook/", id_text.as_str()), body: None }
    }
}

/// In the arguments of a page of webhooks each of the three names stands
/// once where its field is present, and not at all where the field is empty
/// or not above zero.
pub proof fn lemma_page_args_names(topic: Seq<char>, page: u64, limit: i64)
    ensures
        count_name(page_args(topic, page, limit), "Limit"@) == if limit > 0 {
            1nat
        } else {
            0nat
        },
        count_name(page_args(topic, page, limit), "Page"@) == if page > 0 {
            1nat
        } else {
            0nat
        },
        count_name(page_args(topic, page, limit), "Topic"@) == if topic.len() > 0 {
            1nat
        } else {
            0nat
        },
        limit > 0 ==> page_args(topic, page, limit).contains(("Limit"@, decimal(limit as int))),
        page > 0 ==> page_args(topic, page, limit).contains(("Page"@, decimal(page as int))),
        topic.len() > 0 ==> page_args(topic, page, limit).contains(("Topic"@, topic)),
{
    reveal_strlit("Limit");
    reveal_strlit("Page");
    reveal_strlit("Topic");
    let none = Seq::<(Seq<char>, Seq<char>)>::empty();
    let one = with_number(none, "Limit"@, limit as int);
    let two = with_number(one, "Page"@, page as int);
    assert("Limit"@.len() != "Page"@.len());
    assert("Limit"@[0] != "Topic"@[0]);
    assert("Page"@.len() != "Topic"@.len());
    lemma_count_with_number(none, "Limit"@, limit as int, "Limit"@);
    lemma_count_with_number(none, "Limit"@, limit as int, "Page"@);
    lemma_count_with_number(none, "Limit"@, limit as int, "Topic"@);
    lemma_count_with_number(one, "Page"@, page as int, "Limit"@);
    lemma_count_with_number(one, "Page"@, page as int, "Page"@);
    lemma_count_with_number(one, "Page"@, page as int, "Topic"@);
    lemma_count_with_text(two, "Topic"@, topic, "Limit"@);
    lemma_count_with_text(two, "Topic"@, topic, "Page"@);
    lemma_count_with_text(two, "Topic"@, topic, "Topic"@);
}

} // verus!
