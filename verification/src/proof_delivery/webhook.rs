//! Delivery of proofs by HTTP POST to a webhook.

use vstd::prelude::*;

use crate::types::StoredProof;

verus! {

/// Delivery of proofs by HTTP POST to a webhook. Sending is not done here: each proof is accepted as delivered.
pub struct WebhookDelivery {
    url: String,
    auth_token: Option<String>,
}

impl WebhookDelivery {
    /// The webhook's URL.
    pub closed spec fn url_view(&self) -> Seq<char> {
        self.url@
    }

    /// The bearer token, if any.
    pub closed spec fn auth_token_view(&self) -> Option<Seq<char>> {
        match self.auth_token {
            Some(t) => Some(t@),
            None => None,
        }
    }

    /// A delivery to `url` without a token.
    pub fn new(url: String) -> (r: Self)
        ensures
            r.url_view() == url@,
            r.auth_token_view() == None::<Seq<char>>,
    {
        WebhookDelivery { url, auth_token: None }
    }

    /// A delivery to `url` with the bearer token `token`.
    pub fn with_auth(url: String, token: String) -> (r: Self)
        ensures
            r.url_view() == url@,
            r.auth_token_view() == Some(token@),
    {
        WebhookDelivery { url, auth_token: Some(token) }
    }

    /// The delivery's name.
    pub fn name(&self) -> (r: &'static str)
        ensures
            r@ == "webhook"@,
    {
        "webhook"
    }

    /// Accepts `proof`.
    pub fn deliver(&self, proof: &StoredProof) -> (res: Result<(), ()>)
        ensures
            res is Ok,
    {
        Ok(())
    }

    /// Accepts each of `proofs`, in order.
    pub fn deliver_batch(&self, proofs: &[StoredProof]) -> (res: Result<(), ()>)
        ensures
            res is Ok,
    {
        let mut i: usize = 0;
        while i < proofs.len()
            invariant
                i <= proofs@.len(),
            decreases proofs@.len() - i,
        {
            let _ = self.deliver(&proofs[i]);
            i += 1;
        }
        Ok(())
    }

    /// Prepares the delivery.
    pub fn open(&mut self) -> (res: Result<(), ()>)
        ensures
            res is Ok,
            *final(self) == *old(self),
    {
        Ok(())
    }

    /// Shuts the delivery down.
    pub fn close(&mut self) -> (res: Result<(), ()>)
        ensures
            res is Ok,
            *final(self) == *old(self),
    {
        Ok(())
    }
}

} // verus!
