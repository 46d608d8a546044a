//! The second venue's client: credentials, subscription handshake, method
//! classification, and authenticated REST request preparation with the
//! venue's nonce/SHA-256/HMAC-SHA-512/base64 signing scheme.
use vstd::prelude::*;

use crate::bytes::{all_ascii, ascii_chars_of};
use crate::crypto::{base64_dec_of, base64_enc_of, hmac_sha512_of, sha256_of};
use crate::decimal::dec_digits;
use crate::exchanges::{ApiError, Client, SignedRequest, WebsocketClient};
use vstd::string::StringSliceAdditionalSpecFns;
use vstd::string::StringExecFns;
use vstd::string::StrSliceExecFns;
use vstd::utf8::encode_utf8;

verus! {

/// The venue client: the two credentials, immutable after construction.
pub struct Kraken {
    api_key: String,
    api_sec: String,
}

impl Client for Kraken {
    closed spec fn spec_api_key(&self) -> Seq<char> {
        self.api_key@
    }

    closed spec fn spec_api_sec(&self) -> Seq<char> {
        self.api_sec@
    }

    fn new(api_key: String, api_sec: String) -> (r: Kraken) {
        Kraken { api_key, api_sec }
    }
}

/// `{"event":"subscribe","pair":["` as bytes.
pub open spec fn kr_sub_prefix() -> Seq<u8> {
    seq![
        123u8, 34u8, 101u8, 118u8, 101u8, 110u8, 116u8, 34u8, 58u8, 34u8, 115u8, 117u8, 98u8,
        115u8, 99u8, 114u8, 105u8, 98u8, 101u8, 34u8, 44u8, 34u8, 112u8, 97u8, 105u8, 114u8, 34u8,
        58u8, 91u8, 34u8,
    ]
}

/// `"],"subscription":{"name":"spread"}}` as bytes.
pub open spec fn kr_sub_suffix() -> Seq<u8> {
    seq![
        34u8, 93u8, 44u8, 34u8, 115u8, 117u8, 98u8, 115u8, 99u8, 114u8, 105u8, 112u8, 116u8,
        105u8, 111u8, 110u8, 34u8, 58u8, 123u8, 34u8, 110u8, 97u8, 109u8, 101u8, 34u8, 58u8, 34u8,
        115u8, 112u8, 114u8, 101u8, 97u8, 100u8, 34u8, 125u8, 125u8,
    ]
}

/// The handshake subscribes to the asset pair's spread channel in an
/// `event`/`pair`/`subscription` envelope; the pair is spliced unchanged.
pub open spec fn kr_subscription_bytes(asset: Seq<u8>) -> Seq<u8> {
    kr_sub_prefix() + asset + kr_sub_suffix()
}

impl WebsocketClient for Kraken {
    closed spec fn spec_ws_url(&self) -> Seq<char> {
        "wss://ws.kraken.com"@
    }

    closed spec fn spec_subscription_bytes(&self, asset: Seq<u8>) -> Seq<u8> {
        kr_subscription_bytes(asset)
    }

    fn ws_url(&self) -> (r: String) {
        String::from_str("wss://ws.kraken.com")
    }

    fn subscription_message(&self, asset: &str) -> (r: String) {
        let prefix: [u8; 30] = [
            123, 34, 101, 118, 101, 110, 116, 34, 58, 34, 115, 117, 98, 115, 99, 114, 105, 98,
            101, 34, 44, 34, 112, 97, 105, 114, 34, 58, 91, 34,
        ];
        let suffix: [u8; 36] = [
            34, 93, 44, 34, 115, 117, 98, 115, 99, 114, 105, 112, 116, 105, 111, 110, 34, 58, 123,
            34, 110, 97, 109, 101, 34, 58, 34, 115, 112, 114, 101, 97, 100, 34, 125, 125,
        ];
        proof {
            assert(prefix@ =~= kr_sub_prefix());
            assert(suffix@ =~= kr_sub_suffix());
        }
        let mut out: Vec<u8> = Vec::new();
        out.extend_from_slice(prefix.as_slice());
        out.extend_from_slice(asset.as_bytes());
        out.extend_from_slice(suffix.as_slice());
        let r = crate::crypto::bytes_to_string(&out);
        proof {
            if all_ascii(asset.spec_bytes()) {
                assert(forall|k: int| 0 <= k < out@.len() ==> out@[k] < 128);
                assert(r@ =~= ascii_chars_of(kr_subscription_bytes(asset.spec_bytes())));
            }
        }
        r
    }
}

/// What the venue's private endpoints sign: the URI path bytes followed by
/// `SHA-256(nonce || payload)`, tagged with HMAC-SHA-512 under the
/// base64-decoded secret, the tag spelled in base64.
pub open spec fn kr_signature_of(
    api_path: Seq<char>,
    nonce: Seq<char>,
    payload: Seq<char>,
    key: Seq<u8>,
) -> Seq<char> {
    base64_enc_of(
        hmac_sha512_of(key, encode_utf8(api_path) + sha256_of(encode_utf8(nonce + payload))),
    )
}

/// Builds the venue's REST requests; signing and routing only, no
/// transport.
pub struct KrakenClient;

impl KrakenClient {
    /// The venue's API-Sign header value, or `BadSecret` when the
    /// configured secret is not base64.
    pub fn get_signature(
        api_path: String,
        nonce: String,
        url_encoded_body: String,
        api_secret: String,
    ) -> (r: Result<String, ApiError>)
        ensures
            (r is Err) <==> (base64_dec_of(api_secret@) is None),
            r matches Err(e) ==> e == ApiError::BadSecret,
            r matches Ok(sig) ==> {
                &&& base64_dec_of(api_secret@) matches Some(key)
                &&& sig@ == kr_signature_of(api_path@, nonce@, url_encoded_body@, key)
            },
    {
        let key = match crate::crypto::base64_decode(api_secret.as_str()) {
            Some(k) => k,
            None => {
                return Err(ApiError::BadSecret);
            },
        };
        let mut msg: Vec<u8> = Vec::new();
        msg.extend_from_slice(nonce.as_str().as_bytes());
        msg.extend_from_slice(url_encoded_body.as_str().as_bytes());
        proof {
            crate::bytes::lemma_encode_utf8_concat(nonce@, url_encoded_body@);
            assert(msg@ =~= encode_utf8(nonce@ + url_encoded_body@));
        }
        let digest = crate::crypto::sha256(msg.as_slice());
        let mut hmac_data: Vec<u8> = Vec::new();
        hmac_data.extend_from_slice(api_path.as_str().as_bytes());
        hmac_data.extend_from_slice(digest.as_slice());
        proof {
            assert(hmac_data@ =~= encode_utf8(api_path@) + sha256_of(
                encode_utf8(nonce@ + url_encoded_body@),
            ));
        }
        let tag = crate::crypto::hmac_sha512(key.as_slice(), hmac_data.as_slice());
        Ok(crate::crypto::base64_encode(tag.as_slice()))
    }

    /// Prepares one REST request. Public methods become plain GETs; private
    /// methods post a nonce-prefixed body under the API-Key and API-Sign
    /// headers. An unrecognized method is a configuration error, and a
    /// private call without credentials, or with a secret that is not
    /// base64, never goes out.
    pub fn build_api_request(
        method: &str,
        url_encoded_body: &str,
        nonce: u64,
        api_key: &str,
        api_secret: &str,
    ) -> (r: Result<SignedRequest, ApiError>)
        ensures
            r matches Err(e) ==> {
                &&& e == ApiError::UnknownMethod <==> (!kr_is_public(method.spec_bytes())
                    && !kr_is_private(method.spec_bytes()))
                &&& e == ApiError::MissingCredentials <==> (!kr_is_public(method.spec_bytes())
                    && kr_is_private(method.spec_bytes()) && (api_key@.len() == 0
                    || api_secret@.len() == 0))
                &&& e == ApiError::BadSecret <==> (!kr_is_public(method.spec_bytes())
                    && kr_is_private(method.spec_bytes()) && api_key@.len() > 0
                    && api_secret@.len() > 0 && base64_dec_of(api_secret@) is None)
            },
            r matches Ok(req) ==> {
                &&& kr_is_public(method.spec_bytes()) ==> {
                    &&& req.url@ == "https://api.kraken.com"@ + "/0/public/"@ + method@ + (
                    if url_encoded_body@.len() > 0 {
                        "?"@ + url_encoded_body@
                    } else {
                        Seq::<char>::empty()
                    })
                    &&& !req.is_post
                    &&& req.body@ == Seq::<char>::empty()
                    &&& req.headers@.len() == 0
                }
                &&& (!kr_is_public(method.spec_bytes()) && kr_is_private(method.spec_bytes()))
                    ==> {
                    let path = "/0/private/"@ + method@;
                    let nonce_chars = ascii_chars_of(dec_digits(nonce as int));
                    let payload = "nonce="@ + nonce_chars + (if url_encoded_body@.len() > 0 {
                        "&"@ + url_encoded_body@
                    } else {
                        Seq::<char>::empty()
                    });
                    &&& req.url@ == "https://api.kraken.com"@ + path
                    &&& req.is_post
                    &&& req.body@ == payload
                    &&& base64_dec_of(api_secret@) matches Some(key)
                    &&& req.headers@.len() == 2
                    &&& req.headers@[0].0@ == "API-Key"@
                    &&& req.headers@[0].1@ == api_key@
                    &&& req.headers@[1].0@ == "API-Sign"@
                    &&& req.headers@[1].1@ == kr_signature_of(path, nonce_chars, payload, key)
                }
            },
            (r is Ok) <==> (kr_is_public(method.spec_bytes()) || (kr_is_private(
                method.spec_bytes(),
            ) && api_key@.len() > 0 && api_secret@.len() > 0 && base64_dec_of(api_secret@)
                is Some)),
    {
        let is_pub = KrakenUtils::is_method_public(method);
        let is_priv = KrakenUtils::is_method_private(method);
        if !is_pub && !is_priv {
            return Err(ApiError::UnknownMethod);
        }
        if is_pub {
            let mut url = String::from_str("https://api.kraken.com");
            url.append("/0/public/");
            url.append(method);
            if !url_encoded_body.is_empty() {
                url.append("?");
                url.append(url_encoded_body);
                proof {
                    assert(url@ =~= "https://api.kraken.com"@ + "/0/public/"@ + method@ + ("?"@
                        + url_encoded_body@));
                }
            }
            return Ok(
                SignedRequest {
                    url,
                    is_post: false,
                    body: String::new(),
                    headers: Vec::new(),
                },
            );
        }
        if api_key.is_empty() || api_secret.is_empty() {
            return Err(ApiError::MissingCredentials);
        }
        let mut path = String::from_str("/0/private/");
        path.append(method);
        let nonce_str = crate::decimal::u64_to_string(nonce);
        let mut payload = String::from_str("nonce=");
        payload.append(nonce_str.as_str());
        if !url_encoded_body.is_empty() {
            payload.append("&");
            payload.append(url_encoded_body);
            proof {
                assert(payload@ =~= "nonce="@ + ascii_chars_of(dec_digits(nonce as int)) + ("&"@
                    + url_encoded_body@));
            }
        }
        let signature = match KrakenClient::get_signature(
            path.clone(),
            nonce_str.clone(),
            payload.clone(),
            api_secret.to_owned(),
        ) {
            Ok(sig) => sig,
            Err(e) => {
                return Err(e);
            },
        };
        let mut url = String::from_str("https://api.kraken.com");
        url.append(path.as_str());
        let mut headers: Vec<(String, String)> = Vec::new();
        headers.push((String::from_str("API-Key"), api_key.to_owned()));
        headers.push((String::from_str("API-Sign"), signature));
        Ok(SignedRequest { url, is_post: true, body: payload, headers })
    }
}

/// The public-method allow-list.
pub open spec fn kr_is_public(m: Seq<u8>) -> bool {
    ||| m == "Time".spec_bytes()
    ||| m == "Assets".spec_bytes()
    ||| m == "AssetPairs".spec_bytes()
    ||| m == "Ticker".spec_bytes()
    ||| m == "Depth".spec_bytes()
    ||| m == "Trades".spec_bytes()
    ||| m == "Spread".spec_bytes()
    ||| m == "OHLC".spec_bytes()
}

/// The private-method allow-list.
pub open spec fn kr_is_private(m: Seq<u8>) -> bool {
    ||| m == "BalanceEx".spec_bytes()
    ||| m == "Balance".spec_bytes()
    ||| m == "TradeBalance".spec_bytes()
    ||| m == "OpenOrders".spec_bytes()
    ||| m == "ClosedOrders".spec_bytes()
    ||| m == "QueryOrders".spec_bytes()
    ||| m == "TradesHistory".spec_bytes()
    ||| m == "QueryTrades".spec_bytes()
    ||| m == "OpenPositions".spec_bytes()
    ||| m == "Ledgers".spec_bytes()
    ||| m == "QueryLedgers".spec_bytes()
    ||| m == "TradeVolume".spec_bytes()
    ||| m == "AddOrder".spec_bytes()
    ||| m == "CancelOrder".spec_bytes()
    ||| m == "DepositMethods".spec_bytes()
    ||| m == "DepositAddresses".spec_bytes()
    ||| m == "DepositStatus".spec_bytes()
    ||| m == "WithdrawInfo".spec_bytes()
    ||| m == "Withdraw".spec_bytes()
    ||| m == "WithdrawStatus".spec_bytes()
    ||| m == "WithdrawCancel".spec_bytes()
    ||| m == "GetWebSocketsToken".spec_bytes()
}

/// Immutable venue configuration, built once at startup and passed by
/// reference wherever it is needed.
pub struct KrakenConfig {
    api_key: String,
    api_secret: String,
}

impl KrakenConfig {
    pub closed spec fn spec_key(&self) -> Seq<char> {
        self.api_key@
    }

    pub closed spec fn spec_secret(&self) -> Seq<char> {
        self.api_secret@
    }

    /// An empty configuration: credentials not yet set.
    pub fn new() -> (r: KrakenConfig)
        ensures
            r.spec_key() == Seq::<char>::empty(),
            r.spec_secret() == Seq::<char>::empty(),
    {
        KrakenConfig { api_key: String::new(), api_secret: String::new() }
    }

    pub fn set_kraken_api_credentials(&mut self, api_key: String, api_secret: String)
        ensures
            final(self).spec_key() == api_key@,
            final(self).spec_secret() == api_secret@,
    {
        self.set_kraken_api_key(api_key);
        self.set_kraken_api_secret(api_secret);
    }

    pub fn set_kraken_api_key(&mut self, api_key: String)
        ensures
            final(self).spec_key() == api_key@,
            final(self).spec_secret() == old(self).spec_secret(),
    {
        self.api_key = api_key;
    }

    pub fn get_kraken_api_key(&self) -> (r: &String)
        ensures
            r@ == self.spec_key(),
    {
        &self.api_key
    }

    pub fn set_kraken_api_secret(&mut self, api_secret: String)
        ensures
            final(self).spec_secret() == api_secret@,
            final(self).spec_key() == old(self).spec_key(),
    {
        self.api_secret = api_secret;
    }

    pub fn get_kraken_api_secret(&self) -> (r: &String)
        ensures
            r@ == self.spec_secret(),
    {
        &self.api_secret
    }

    pub fn get_kraken_api_url() -> (r: String)
        ensures
            r@ == "https://api.kraken.com"@,
    {
        String::from_str("https://api.kraken.com")
    }

    pub fn get_kraken_api_version() -> (r: String)
        ensures
            r@ == "0"@,
    {
        String::from_str("0")
    }

    /// The fixed request timeout, in milliseconds.
    pub fn get_kraken_api_timeout() -> (r: u64)
        ensures
            r == 5000,
    {
        5000
    }
}

/// Method classification for the venue.
pub struct KrakenUtils;

impl KrakenUtils {
    pub fn is_method_public(method: &str) -> (r: bool)
        ensures
            r == kr_is_public(method.spec_bytes()),
    {
        let m = method.as_bytes();
        crate::bytes::bytes_eq(m, "Time".as_bytes())
           || crate::bytes::bytes_eq(m, "Assets".as_bytes())
           || crate::bytes::bytes_eq(m, "AssetPairs".as_bytes())
           || crate::bytes::bytes_eq(m, "Ticker".as_bytes())
           || crate::bytes::bytes_eq(m, "Depth".as_bytes())
           || crate::bytes::bytes_eq(m, "Trades".as_bytes())
           || crate::bytes::bytes_eq(m, "Spread".as_bytes())
           || crate::bytes::bytes_eq(m, "OHLC".as_bytes())
    }

    pub fn is_method_private(method: &str) -> (r: bool)
        ensures
            r == kr_is_private(method.spec_bytes()),
    {
        let m = method.as_bytes();
        crate::bytes::bytes_eq(m, "BalanceEx".as_bytes())
           || crate::bytes::bytes_eq(m, "Balance".as_bytes())
           || crate::bytes::bytes_eq(m, "TradeBalance".as_bytes())
           || crate::bytes::bytes_eq(m, "OpenOrders".as_bytes())
           || crate::bytes::bytes_eq(m, "ClosedOrders".as_bytes())
           || crate::bytes::bytes_eq(m, "QueryOrders".as_bytes())
           || crate::bytes::bytes_eq(m, "TradesHistory".as_bytes())
           || crate::bytes::bytes_eq(m, "QueryTrades".as_bytes())
           || crate::bytes::bytes_eq(m, "OpenPositions".as_bytes())
           || crate::bytes::bytes_eq(m, "Ledgers".as_bytes())
           || crate::bytes::bytes_eq(m, "QueryLedgers".as_bytes())
           || crate::bytes::bytes_eq(m, "TradeVolume".as_bytes())
           || crate::bytes::bytes_eq(m, "AddOrder".as_bytes())
           || crate::bytes::bytes_eq(m, "CancelOrder".as_bytes())
           || crate::bytes::bytes_eq(m, "DepositMethods".as_bytes())
           || crate::bytes::bytes_eq(m, "DepositAddresses".as_bytes())
           || crate::bytes::bytes_eq(m, "DepositStatus".as_bytes())
           || crate::bytes::bytes_eq(m, "WithdrawInfo".as_bytes())
           || crate::bytes::bytes_eq(m, "Withdraw".as_bytes())
           || crate::bytes::bytes_eq(m, "WithdrawStatus".as_bytes())
           || crate::bytes::bytes_eq(m, "WithdrawCancel".as_bytes())
           || crate::bytes::bytes_eq(m, "GetWebSocketsToken".as_bytes())
    }

    /// `"public"`, `"private"`, or `"invalid"`; an unrecognized name never
    /// passes as public.
    pub fn get_method_type(method: &str) -> (r: &str)
        ensures
            kr_is_public(method.spec_bytes()) ==> r@ == "public"@,
            (!kr_is_public(method.spec_bytes()) && kr_is_private(method.spec_bytes())) ==> r@
                == "private"@,
            (!kr_is_public(method.spec_bytes()) && !kr_is_private(method.spec_bytes())) ==> r@
                == "invalid"@,
    {
        let method_type: &str = if KrakenUtils::is_method_public(method) {
            "public"
        } else if KrakenUtils::is_method_private(method) {
            "private"
        } else {
            "invalid"
        };
        method_type
    }
}

} // verus!
