//! Connection addresses: a URI whose scheme selects the backend.
use crate::error::Error;
use vstd::prelude::*;

verus! {

/// What url::Url::parse makes of `text`: its scheme and its path, or nothing where it
/// refuses the text.
pub uninterp spec fn url_parts(text: Seq<char>) -> Option<(Seq<char>, Seq<char>)>;

/// Relies on url::Url::parse, and on Url::scheme and Url::path of the value it returns.
#[verifier::external_body]
fn parse_url(text: &str) -> (r: Option<(String, String)>)
    ensures
        r is None ==> url_parts(text@) is None,
        r matches Some((s, p)) ==> url_parts(text@) == Some((s@, p@)),
{
    url::Url::parse(text).ok().map(|u| (u.scheme().to_string(), u.path().to_string()))
}

/// A parsed connection address.
#[derive(Clone, Debug)]
pub struct StoreAddress {
    text: String,
    scheme: String,
    path: String,
}

impl StoreAddress {
    pub closed spec fn text_view(&self) -> Seq<char> {
        self.text@
    }

    pub closed spec fn scheme_view(&self) -> Seq<char> {
        self.scheme@
    }

    pub closed spec fn path_view(&self) -> Seq<char> {
        self.path@
    }

    /// Whether the scheme and path are those that the URL parser finds in the text.
    pub open spec fn wf(&self) -> bool {
        url_parts(self.text_view()) == Some((self.scheme_view(), self.path_view()))
    }

    /// Parses `text` as a URI; fails with `InvalidAddress` exactly where the parser refuses it.
    pub fn parse(text: &str) -> (r: Result<StoreAddress, Error>)
        ensures
            r is Ok <==> url_parts(text@) is Some,
            r matches Ok(a) ==> a.wf() && a.text_view() == text@,
            r matches Err(e) ==> e matches Error::InvalidAddress { address } && address@ == text@,
    {
        match parse_url(text) {
            Some((scheme, path)) => Ok(StoreAddress { text: text.to_string(), scheme, path }),
            None => Err(Error::InvalidAddress { address: text.to_string() }),
        }
    }

    /// A copy of this address.
    pub fn clone_address(&self) -> (r: StoreAddress)
        ensures
            r.text_view() == self.text_view(),
            r.scheme_view() == self.scheme_view(),
            r.path_view() == self.path_view(),
    {
        StoreAddress { text: self.text.clone(), scheme: self.scheme.clone(), path: self.path.clone() }
    }

    /// The address as it was written.
    pub fn as_str(&self) -> (r: &str)
        ensures
            r@ == self.text_view(),
    {
        self.text.as_str()
    }

    pub fn scheme(&self) -> (r: &str)
        ensures
            r@ == self.scheme_view(),
    {
        self.scheme.as_str()
    }

    pub fn path(&self) -> (r: &str)
        ensures
            r@ == self.path_view(),
    {
        self.path.as_str()
    }
}

} // verus!
