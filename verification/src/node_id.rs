//! Node identity: the address under which a node is reached.

use tonic::codegen::http::uri::InvalidUri;
use tonic::transport::Uri;
use vstd::prelude::*;

verus! {

/// `tonic::transport::Uri`, the address of a node. Nothing is known of what a
/// value holds.
#[verifier::external_type_specification]
#[verifier::external_body]
pub struct ExUri(tonic::transport::Uri);

/// `http::uri::InvalidUri`, why a text is no address. It is only told apart
/// from success.
#[verifier::external_type_specification]
#[verifier::external_body]
pub struct ExInvalidUri(tonic::codegen::http::uri::InvalidUri);

/// The address that a text parses to, if it is one.
pub uninterp spec fn parsed_uri(text: Seq<char>) -> Option<Uri>;

/// Whether two addresses are equal as `Uri` compares them.
pub uninterp spec fn uri_equal(a: Uri, b: Uri) -> bool;

/// `str::parse::<Uri>`. Trusted: whether a text parses, and to which
/// address, depends on the text alone.
#[verifier::external_body]
fn parse_uri(text: &str) -> (r: Result<Uri, InvalidUri>)
    ensures
        r matches Ok(u) ==> parsed_uri(text@) == Some(u),
        r is Err ==> parsed_uri(text@) is None,
{
    text.parse::<Uri>()
}

/// `Uri::eq`. Trusted: the answer depends on the two addresses alone, and an
/// address equals itself.
#[verifier::external_body]
fn uri_eq(a: &Uri, b: &Uri) -> (r: bool)
    ensures
        r == uri_equal(*a, *b),
        *a == *b ==> r,
{
    a == b
}

/// `Uri::clone`. Trusted: the copy is the same address.
pub assume_specification[ <Uri as Clone>::clone ](a: &Uri) -> (r: Uri)
    ensures
        r == *a,
;

/// A text that is no address.
#[derive(Clone, Copy, Debug, PartialEq, Eq, Structural)]
pub struct InvalidNodeId;

/// The identity of a node.
#[derive(Clone, Debug, PartialEq, Eq, Hash)]
pub struct NodeId(Uri);

impl NodeId {
    /// The address behind the identity.
    pub closed spec fn spec_uri(&self) -> Uri {
        self.0
    }

    /// Whether two identities name the same node.
    pub open spec fn same(&self, other: &NodeId) -> bool {
        uri_equal(self.spec_uri(), other.spec_uri())
    }

    pub fn new(uri: Uri) -> (id: NodeId)
        ensures
            id.spec_uri() == uri,
    {
        NodeId(uri)
    }

    /// Reads an identity from text. Fails exactly when the text is no address.
    pub fn from_str(url: &str) -> (r: Result<NodeId, InvalidNodeId>)
        ensures
            match r {
                Ok(id) => parsed_uri(url@) == Some(id.spec_uri()),
                Err(_) => parsed_uri(url@) is None,
            },
    {
        match parse_uri(url) {
            Ok(uri) => Ok(NodeId(uri)),
            Err(_) => Err(InvalidNodeId),
        }
    }

    /// The address behind the identity.
    pub fn uri(&self) -> (u: &Uri)
        ensures
            *u == self.spec_uri(),
    {
        &self.0
    }

    /// Whether two identities name the same node.
    pub fn is_same(&self, other: &NodeId) -> (r: bool)
        ensures
            r == self.same(other),
            *self == *other ==> r,
    {
        uri_eq(&self.0, &other.0)
    }

    /// A second value for the same identity.
    pub fn duplicate(&self) -> (id: NodeId)
        ensures
            id == *self,
    {
        NodeId(self.0.clone())
    }
}

} // verus!
