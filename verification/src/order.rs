//! Certificate order data and identifiers for the ACME collaborator.

use vstd::prelude::*;

use crate::value::Value;

verus! {

/// Status of an [`Order`].
#[derive(Clone, Copy, Debug, Eq, PartialEq, Structural)]
pub enum Status {
    /// Place holder used when sending objects: the server fills the real
    /// status in.
    New,
    /// Authorization failed and the order is now invalid.
    Invalid,
    /// The authorization is pending and the user should look through its
    /// challenges.
    Pending,
    /// The provider is processing an authorization validation.
    Processing,
    /// The requirements for the order have been met and it may be finalized.
    Ready,
    /// The certificate has been issued and can be downloaded from the URL in
    /// the order's certificate field.
    Valid,
}

impl Default for Status {
    /// A fresh order starts as new.
    fn default() -> (r: Self)
        ensures
            r == Status::New,
    {
        Status::New
    }
}

impl Status {
    /// Whether the status is the place holder for a fresh order.
    pub fn is_new(&self) -> (r: bool)
        ensures
            r == (*self == Status::New),
    {
        *self == Status::New
    }

    /// Whether the status is pending.
    pub fn is_pending(self) -> (r: bool)
        ensures
            r == (self == Status::Pending),
    {
        self == Status::Pending
    }

    /// Whether the status is valid.
    pub fn is_valid(self) -> (r: bool)
        ensures
            r == (self == Status::Valid),
    {
        self == Status::Valid
    }
}

/// An identifier used for a certificate request; only DNS name identifiers
/// are supported.
#[derive(Clone, Debug, PartialEq, Eq)]
pub enum Identifier {
    /// A domain name to be added to a certificate.
    Dns(String),
}

/// The order data sent to and received from the server: a set of domains and
/// the server's progress on them.
pub struct OrderData {
    /// The order status.
    pub status: Status,
    /// This order's expiration date, as a formatted time string.
    pub expires: Option<String>,
    /// List of identifiers to order for the certificate.
    pub identifiers: Vec<Identifier>,
    /// Earliest requested validity, as a formatted time string.
    pub not_before: Option<String>,
    /// Latest requested validity, as a formatted time string.
    pub not_after: Option<String>,
    /// Possible errors in this order.
    pub error: Option<Value>,
    /// URLs to the authorizations the client needs to complete.
    pub authorizations: Vec<String>,
    /// URL the final signing request is posted to, once all authorizations
    /// have been performed.
    pub finalize: Option<String>,
    /// URL at which the issued certificate can be fetched once available.
    pub certificate: Option<String>,
}

impl Default for OrderData {
    /// An empty order: a new status and nothing else.
    fn default() -> (r: Self)
        ensures
            r.status == Status::New,
            r.expires is None,
            r.identifiers@.len() == 0,
            r.not_before is None,
            r.not_after is None,
            r.error is None,
            r.authorizations@.len() == 0,
            r.finalize is None,
            r.certificate is None,
    {
        OrderData {
            status: Status::New,
            expires: None,
            identifiers: Vec::new(),
            not_before: None,
            not_after: None,
            error: None,
            authorizations: Vec::new(),
            finalize: None,
            certificate: None,
        }
    }
}

impl OrderData {
    /// Initialize an empty order object.
    pub fn new() -> (r: Self)
        ensures
            r.status == Status::New,
            r.identifiers@.len() == 0,
            r.authorizations@.len() == 0,
            r.expires is None,
            r.error is None,
            r.finalize is None,
            r.certificate is None,
    {
        Default::default()
    }

    /// Builder-style method to add a domain identifier to the data.
    pub fn domain(self, domain: String) -> (r: Self)
        ensures
            r.identifiers@ == self.identifiers@.push(Identifier::Dns(domain)),
            r.status == self.status,
            r.expires == self.expires,
            r.not_before == self.not_before,
            r.not_after == self.not_after,
            r.error == self.error,
            r.authorizations == self.authorizations,
            r.finalize == self.finalize,
            r.certificate == self.certificate,
    {
        let mut this = self;
        this.identifiers.push(Identifier::Dns(domain));
        this
    }
}

/// An order for a new certificate: the order's own location together with
/// the data received from the server.
pub struct Order {
    /// Order location URL.
    pub location: String,
    /// The order's data object.
    pub data: OrderData,
}

impl Order {
    /// An authorization URL, or nothing when the index is out of range.
    pub fn authorization(&self, index: usize) -> (r: Option<&String>)
        ensures
            index < self.data.authorizations@.len() ==> (r matches Some(s) && *s
                == self.data.authorizations@[index as int]),
            index >= self.data.authorizations@.len() ==> r is None,
    {
        if index < self.data.authorizations.len() {
            Some(&self.data.authorizations[index])
        } else {
            None
        }
    }

    /// The number of authorizations in this object.
    pub fn authorization_len(&self) -> (n: usize)
        ensures
            n == self.data.authorizations@.len(),
    {
        self.data.authorizations.len()
    }
}

/// A request to be sent to the server: the wire-level description the
/// transport collaborator executes.
pub struct Request {
    /// The URL the request goes to.
    pub url: String,
    /// The request method.
    pub method: String,
    /// The content type of the body.
    pub content_type: String,
    /// The request body.
    pub body: String,
    /// The response status the caller expects.
    pub expected: u16,
}

/// A new in-flight order creation: the request to execute to place the
/// order.
pub struct NewOrder {
    /// The request to execute; present when the order was built for sending.
    pub request: Option<Request>,
}

impl NewOrder {
    /// Wrap the request that places a new order.
    pub fn new(request: Request) -> (r: Self)
        ensures
            r.request == Some(request),
    {
        Self { request: Some(request) }
    }
}

} // verus!
