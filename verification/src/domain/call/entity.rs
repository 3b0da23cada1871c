//! Call entities.
use vstd::prelude::*;
use crate::domain::shared::value_objects::{EndpointId, SipUri};

verus! {

/// Participant in a call.
#[derive(Debug, Clone)]
pub struct Participant {
    /// Endpoint identifier
    endpoint_id: EndpointId,
    /// SIP URI
    uri: SipUri,
    /// Display name
    display_name: Option<String>,
}

impl Participant {
    pub closed spec fn spec_endpoint_id(&self) -> EndpointId {
        self.endpoint_id
    }

    pub closed spec fn spec_uri(&self) -> SipUri {
        self.uri
    }

    pub closed spec fn spec_display_name(&self) -> Option<String> {
        self.display_name
    }

    pub fn new(endpoint_id: EndpointId, uri: SipUri, display_name: Option<String>) -> (r: Self)
        ensures
            r.spec_endpoint_id() == endpoint_id,
            r.spec_uri() == uri,
            r.spec_display_name() == display_name,
    {
        Self { endpoint_id, uri, display_name }
    }

    pub fn endpoint_id(&self) -> (r: &EndpointId)
        ensures
            *r == self.spec_endpoint_id(),
    {
        &self.endpoint_id
    }

    pub fn uri(&self) -> (r: &SipUri)
        ensures
            *r == self.spec_uri(),
    {
        &self.uri
    }

    pub fn display_name(&self) -> (r: Option<&str>)
        ensures
            match self.spec_display_name() {
                Some(n) => r matches Some(s) && s@ == n@,
                None => r is None,
            },
    {
        match &self.display_name {
            Some(n) => Some(n.as_str()),
            None => None,
        }
    }

    pub fn set_display_name(&mut self, name: Option<String>)
        ensures
            final(self).spec_display_name() == name,
            final(self).spec_endpoint_id() == old(self).spec_endpoint_id(),
            final(self).spec_uri() == old(self).spec_uri(),
    {
        self.display_name = name;
    }

    /// A copy of the participant.
    pub fn duplicate(&self) -> (r: Self)
        ensures
            r == *self,
    {
        Participant {
            endpoint_id: self.endpoint_id,
            uri: self.uri.duplicate(),
            display_name: match &self.display_name {
                Some(n) => Some(n.clone()),
                None => None,
            },
        }
    }
}

} // verus!
