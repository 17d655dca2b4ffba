//! Workflow definitions of envelopes and of templates.

use vstd::prelude::*;
use crate::request::{fill_two, path_of_two, Method, Request};

verus! {

/// The path of an envelope's workflow definition.
pub open spec fn envelope_workflow_path(account_id: Seq<char>, envelope_id: Seq<char>) -> Seq<
    char,
> {
    path_of_two("/v2.1/accounts/"@, account_id, "/envelopes/"@, envelope_id, "/workflow"@)
}

/// The path of a template's workflow definition.
pub open spec fn template_workflow_path(account_id: Seq<char>, template_id: Seq<char>) -> Seq<
    char,
> {
    path_of_two("/v2.1/accounts/"@, account_id, "/templates/"@, template_id, "/workflow"@)
}

/// The operations on workflow definitions, around a handle to the transport.
pub struct EnvelopeWorkflowDefinition<C> {
    pub client: C,
}

impl<C> EnvelopeWorkflowDefinition<C> {
    /// A binding around the given handle.
    pub fn new(client: C) -> (binding: Self)
        ensures
            binding.client == client,
    {
        EnvelopeWorkflowDefinition { client }
    }

    fn envelope_url(account_id: &str, envelope_id: &str) -> (url: String)
        ensures
            url@ == envelope_workflow_path(account_id@, envelope_id@),
    {
        fill_two("/v2.1/accounts/", account_id, "/envelopes/", envelope_id, "/workflow")
    }

    fn template_url(account_id: &str, template_id: &str) -> (url: String)
        ensures
            url@ == template_workflow_path(account_id@, template_id@),
    {
        fill_two("/v2.1/accounts/", account_id, "/templates/", template_id, "/workflow")
    }

    /// Gets an envelope's workflow definition:
    /// `GET /v2.1/accounts/{accountId}/envelopes/{envelopeId}/workflow`.
    pub fn get(&self, account_id: &str, envelope_id: &str) -> (request: Request)
        ensures
            request.carries(Method::Get, envelope_workflow_path(account_id@, envelope_id@), None),
    {
        Request {
            method: Method::Get,
            url: Self::envelope_url(account_id, envelope_id),
            body: None,
        }
    }

    /// Updates an envelope's workflow definition with the given JSON body:
    /// `PUT /v2.1/accounts/{accountId}/envelopes/{envelopeId}/workflow`.
    pub fn put(&self, account_id: &str, envelope_id: &str, body: Vec<u8>) -> (request: Request)
        ensures
            request.carries(
                Method::Put,
                envelope_workflow_path(account_id@, envelope_id@),
                Some(body),
            ),
    {
        Request {
            method: Method::Put,
            url: Self::envelope_url(account_id, envelope_id),
            body: Some(body),
        }
    }

    /// Deletes an envelope's workflow definition:
    /// `DELETE /v2.1/accounts/{accountId}/envelopes/{envelopeId}/workflow`.
    pub fn delete(&self, account_id: &str, envelope_id: &str) -> (request: Request)
        ensures
            request.carries(
                Method::Delete,
                envelope_workflow_path(account_id@, envelope_id@),
                None,
            ),
    {
        Request {
            method: Method::Delete,
            url: Self::envelope_url(account_id, envelope_id),
            body: None,
        }
    }

    /// Gets a template's workflow definition:
    /// `GET /v2.1/accounts/{accountId}/templates/{templateId}/workflow`.
    pub fn get_template(&self, account_id: &str, template_id: &str) -> (request: Request)
        ensures
            request.carries(Method::Get, template_workflow_path(account_id@, template_id@), None),
    {
        Request {
            method: Method::Get,
            url: Self::template_url(account_id, template_id),
            body: None,
        }
    }

    /// Updates a template's workflow definition with the given JSON body:
    /// `PUT /v2.1/accounts/{accountId}/templates/{templateId}/workflow`.
    pub fn put_template(&self, account_id: &str, template_id: &str, body: Vec<u8>) -> (request:
        Request)
        ensures
            request.carries(
                Method::Put,
                template_workflow_path(account_id@, template_id@),
                Some(body),
            ),
    {
        Request {
            method: Method::Put,
            url: Self::template_url(account_id, template_id),
            body: Some(body),
        }
    }

    /// Deletes a template's workflow definition:
    /// `DELETE /v2.1/accounts/{accountId}/templates/{templateId}/workflow`.
    pub fn delete_template(&self, account_id: &str, template_id: &str) -> (request: Request)
        ensures
            request.carries(
                Method::Delete,
                template_workflow_path(account_id@, template_id@),
                None,
            ),
    {
        Request {
            method: Method::Delete,
            url: Self::template_url(account_id, template_id),
            body: None,
        }
    }
}

} // verus!
