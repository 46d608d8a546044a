//! The capability traits every venue client implements, the message type
//! the ingestion tasks hand to the router, and the prepared form of an
//! authenticated REST request.
use vstd::prelude::*;

use crate::bytes::{all_ascii, ascii_chars_of};
use vstd::string::StringSliceAdditionalSpecFns;

verus! {

/// Identity: a venue client is built once from its two credentials and
/// holds them immutably.
pub trait Client: Sized {
    spec fn spec_api_key(&self) -> Seq<char>;

    spec fn spec_api_sec(&self) -> Seq<char>;

    fn new(api_key: String, api_sec: String) -> (r: Self)
        ensures
            r.spec_api_key() == api_key@,
            r.spec_api_sec() == api_sec@,
    ;
}

/// MarketDataSource: a streaming endpoint and a per-asset subscription
/// handshake, both pinned byte for byte by each venue's spec functions.
pub trait WebsocketClient {
    spec fn spec_ws_url(&self) -> Seq<char>;

    /// The handshake payload as bytes, as a function of the asset's bytes.
    spec fn spec_subscription_bytes(&self, asset: Seq<u8>) -> Seq<u8>;

    fn ws_url(&self) -> (r: String)
        ensures
            r@ == self.spec_ws_url(),
    ;

    fn subscription_message(&self, asset: &str) -> (r: String)
        ensures
            all_ascii(asset.spec_bytes()) ==> r@ == ascii_chars_of(
                self.spec_subscription_bytes(asset.spec_bytes()),
            ),
    ;
}

/// One raw venue frame on its way from an ingestion task to the router.
pub struct ExchangeMessage {
    pub sender: String,
    pub asset: String,
    pub content: String,
}

/// A REST request prepared by a venue client: the transport needs nothing
/// beyond what is in here.
#[derive(Debug)]
pub struct SignedRequest {
    pub url: String,
    pub is_post: bool,
    pub body: String,
    pub headers: Vec<(String, String)>,
}

/// Why no request could be prepared. Proceeding with a bad configuration
/// would be unsafe, so these are hard failures.
#[derive(Clone, Copy, PartialEq, Eq, Structural, Debug)]
pub enum ApiError {
    /// The method name is in neither the public nor the private allow-list.
    UnknownMethod,
    /// A private call was attempted with an empty key or secret.
    MissingCredentials,
    /// The configured secret is not valid base64.
    BadSecret,
}

} // verus!
