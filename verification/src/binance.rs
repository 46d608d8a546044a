//! The first venue's client: credentials, subscription handshake, method
//! classification, and authenticated REST request preparation with
//! HMAC-SHA-256 query signing.
use vstd::prelude::*;

use crate::bytes::{all_ascii, ascii_chars_of, spec_lower_byte, spec_lower_bytes};
use crate::crypto::{hex_of, hmac_sha256_of};
use crate::decimal::dec_digits;
use crate::exchanges::{ApiError, Client, SignedRequest, WebsocketClient};
use vstd::string::StringSliceAdditionalSpecFns;
use vstd::string::StringExecFns;
use vstd::string::StrSliceExecFns;
use vstd::utf8::encode_utf8;

verus! {

/// Fixed clock-offset subtracted from local receipt times, in milliseconds.
pub const TIME_OFFSET_MS_BINANCE: u64 = 36880;

/// The venue client: the two credentials, immutable after construction.
pub struct Binance {
    api_key: String,
    api_sec: String,
}

impl Binance {
    pub fn get_api_key(&self) -> (r: &String)
        ensures
            r@ == self.spec_api_key(),
    {
        &self.api_key
    }

    pub fn get_api_sec(&self) -> (r: &String)
        ensures
            r@ == self.spec_api_sec(),
    {
        &self.api_sec
    }
}

impl Client for Binance {
    closed spec fn spec_api_key(&self) -> Seq<char> {
        self.api_key@
    }

    closed spec fn spec_api_sec(&self) -> Seq<char> {
        self.api_sec@
    }

    fn new(api_key: String, api_sec: String) -> (r: Binance) {
        Binance { api_key, api_sec }
    }
}

/// `{"method":"SUBSCRIBE","params":["` as bytes.
pub open spec fn bin_sub_prefix() -> Seq<u8> {
    seq![
        123u8, 34u8, 109u8, 101u8, 116u8, 104u8, 111u8, 100u8, 34u8, 58u8, 34u8, 83u8, 85u8, 66u8,
        83u8, 67u8, 82u8, 73u8, 66u8, 69u8, 34u8, 44u8, 34u8, 112u8, 97u8, 114u8, 97u8, 109u8,
        115u8, 34u8, 58u8, 91u8, 34u8,
    ]
}

/// `@trade"]}` as bytes.
pub open spec fn bin_sub_suffix() -> Seq<u8> {
    seq![64u8, 116u8, 114u8, 97u8, 100u8, 101u8, 34u8, 93u8, 125u8]
}

/// The handshake subscribes to the asset's trade channel: the pair, slashes
/// removed and lower-cased, inside a `method`/`params` envelope.
pub open spec fn bin_subscription_bytes(asset: Seq<u8>) -> Seq<u8> {
    bin_sub_prefix() + spec_lower_bytes(asset.filter(|b: u8| b != 47)) + bin_sub_suffix()
}

impl WebsocketClient for Binance {
    closed spec fn spec_ws_url(&self) -> Seq<char> {
        "wss://stream.binance.com:9443/stream"@
    }

    closed spec fn spec_subscription_bytes(&self, asset: Seq<u8>) -> Seq<u8> {
        bin_subscription_bytes(asset)
    }

    fn ws_url(&self) -> (r: String) {
        String::from_str("wss://stream.binance.com:9443/stream")
    }

    #[verifier::loop_isolation(false)]
    fn subscription_message(&self, asset: &str) -> (r: String) {
        let prefix: [u8; 33] = [
            123, 34, 109, 101, 116, 104, 111, 100, 34, 58, 34, 83, 85, 66, 83, 67, 82, 73, 66, 69,
            34, 44, 34, 112, 97, 114, 97, 109, 115, 34, 58, 91, 34,
        ];
        let suffix: [u8; 9] = [64, 116, 114, 97, 100, 101, 34, 93, 125];
        proof {
            assert(prefix@ =~= bin_sub_prefix());
            assert(suffix@ =~= bin_sub_suffix());
        }
        let mut out: Vec<u8> = Vec::new();
        out.extend_from_slice(prefix.as_slice());
        let ab = asset.as_bytes();
        let n = ab.len();
        let mut i: usize = 0;
        while i < n
            invariant
                i <= n,
                out@ == bin_sub_prefix() + spec_lower_bytes(
                    ab@.take(i as int).filter(|b: u8| b != 47),
                ),
                all_ascii(ab@.take(i as int)) ==> all_ascii(out@),
            decreases n - i,
        {
            let b = ab[i];
            proof {
                assert(ab@.take(i + 1).drop_last() =~= ab@.take(i as int));
                assert(ab@.take(i + 1).last() == ab@[i as int]);
            }
            if b != 47 {
                let lb = crate::bytes::lower_byte(b);
                out.push(lb);
                proof {
                    reveal_with_fuel(Seq::<_>::filter, 2);
                    let f0 = ab@.take(i as int).filter(|b: u8| b != 47);
                    let f1 = ab@.take(i + 1).filter(|b: u8| b != 47);
                    assert(f1 == f0.push(ab@[i as int]));
                    assert(spec_lower_bytes(f1) =~= spec_lower_bytes(f0).push(
                        spec_lower_byte(ab@[i as int]),
                    ));
                    assert(out@ =~= bin_sub_prefix() + spec_lower_bytes(f1));
                }
            } else {
                proof {
                    reveal_with_fuel(Seq::<_>::filter, 2);
                    let f0 = ab@.take(i as int).filter(|b: u8| b != 47);
                    let f1 = ab@.take(i + 1).filter(|b: u8| b != 47);
                    assert(f1 == f0);
                }
            }
            i += 1;
        }
        proof {
            assert(ab@.take(n as int) =~= ab@);
        }
        out.extend_from_slice(suffix.as_slice());
        let r = crate::crypto::bytes_to_string(&out);
        proof {
            if all_ascii(asset.spec_bytes()) {
                assert(forall|k: int| 0 <= k < out@.len() ==> out@[k] < 128);
                assert(r@ =~= ascii_chars_of(bin_subscription_bytes(asset.spec_bytes())));
            }
        }
        r
    }
}

/// Builds the venue's REST requests; signing and routing only, no
/// transport.
pub struct BinanceClient;

impl BinanceClient {
    /// Hex HMAC-SHA-256 signature of a query string under the API secret,
    /// as the venue's private endpoints expect it.
    pub fn get_signature(query_string: &str, api_secret: &str) -> (r: String)
        ensures
            r@ == hex_of(
                hmac_sha256_of(
                    encode_utf8(api_secret@),
                    encode_utf8(query_string@),
                ),
            ),
    {
        let tag = crate::crypto::hmac_sha256(api_secret.as_bytes(), query_string.as_bytes());
        crate::crypto::hex_encode(tag.as_slice())
    }

    /// Prepares one REST request. Public methods become plain GETs; private
    /// methods get a server-time timestamp and a signed query, plus the
    /// API-key header. An unrecognized method is a configuration error and
    /// never proceeds as public.
    pub fn build_api_request(
        method: &str,
        url_encoded_body: &str,
        server_time: u64,
        api_key: &str,
        api_secret: &str,
    ) -> (r: Result<SignedRequest, ApiError>)
        ensures
            (r is Err) <==> (!bin_is_public(method.spec_bytes()) && !bin_is_private(
                method.spec_bytes(),
            )),
            r matches Err(e) ==> e == ApiError::UnknownMethod,
            r matches Ok(req) ==> {
                &&& !req.is_post
                &&& req.body@ == Seq::<char>::empty()
                &&& bin_is_public(method.spec_bytes()) ==> {
                    &&& req.url@ == bin_api_base() + method@ + (if url_encoded_body@.len() > 0 {
                        "?"@ + url_encoded_body@
                    } else {
                        Seq::<char>::empty()
                    })
                    &&& req.headers@.len() == 0
                }
                &&& (!bin_is_public(method.spec_bytes()) && bin_is_private(method.spec_bytes()))
                    ==> {
                    let ts = ascii_chars_of(dec_digits(server_time as int));
                    let qs = if url_encoded_body@.len() > 0 {
                        url_encoded_body@ + "&timestamp="@ + ts
                    } else {
                        "timestamp="@ + ts
                    };
                    &&& req.url@ == bin_api_base() + method@ + "?"@ + (if url_encoded_body@.len()
                        > 0 {
                        url_encoded_body@ + "&"@
                    } else {
                        Seq::<char>::empty()
                    }) + "timestamp="@ + ts + "&signature="@ + hex_of(
                        hmac_sha256_of(encode_utf8(api_secret@), encode_utf8(qs)),
                    )
                    &&& req.headers@.len() == 1
                    &&& req.headers@[0].0@ == "X-MBX-APIKEY"@
                    &&& req.headers@[0].1@ == api_key@
                }
            },
    {
        let is_pub = BinanceUtils::is_method_public(method);
        let is_priv = BinanceUtils::is_method_private(method);
        if !is_pub && !is_priv {
            return Err(ApiError::UnknownMethod);
        }
        let mut url = String::from_str("https://api.binance.com/api/v3/");
        proof {
            reveal_strlit("https://api.binance.com/api/v3/");
            reveal_strlit("https://api.binance.com");
            reveal_strlit("/api/v3/");
            assert(url@ =~= bin_api_base());
        }
        url.append(method);
        if is_pub {
            if !url_encoded_body.is_empty() {
                url.append("?");
                url.append(url_encoded_body);
            }
            return Ok(
                SignedRequest {
                    url,
                    is_post: false,
                    body: String::new(),
                    headers: Vec::new(),
                },
            );
        }
        // private: sign `body&timestamp=T` (or `timestamp=T`) and attach the
        // signature and timestamp as query parameters
        let ts = crate::decimal::u64_to_string(server_time);
        let mut qs = String::new();
        if !url_encoded_body.is_empty() {
            qs.append(url_encoded_body);
            qs.append("&timestamp=");
        } else {
            qs.append("timestamp=");
        }
        qs.append(ts.as_str());
        let signature = BinanceClient::get_signature(qs.as_str(), api_secret);
        url.append("?");
        if !url_encoded_body.is_empty() {
            url.append(url_encoded_body);
            url.append("&");
        }
        url.append("timestamp=");
        url.append(ts.as_str());
        url.append("&signature=");
        url.append(signature.as_str());
        let mut headers: Vec<(String, String)> = Vec::new();
        headers.push((String::from_str("X-MBX-APIKEY"), api_key.to_owned()));
        Ok(SignedRequest { url, is_post: false, body: String::new(), headers })
    }
}

/// `https://api.binance.com/api/v3/` as characters.
pub open spec fn bin_api_base() -> Seq<char> {
    "https://api.binance.com"@ + "/api/v3/"@
}

/// The public-method allow-list.
pub open spec fn bin_is_public(m: Seq<u8>) -> bool {
    m == "Time".spec_bytes()
}

/// The private-method allow-list.
pub open spec fn bin_is_private(m: Seq<u8>) -> bool {
    m == "account".spec_bytes() || m == "myTrades".spec_bytes()
}

/// Immutable venue configuration, built once at startup and passed by
/// reference wherever it is needed.
pub struct BinanceConfig {
    api_key: String,
    api_secret: String,
}

impl BinanceConfig {
    pub closed spec fn spec_key(&self) -> Seq<char> {
        self.api_key@
    }

    pub closed spec fn spec_secret(&self) -> Seq<char> {
        self.api_secret@
    }

    /// An empty configuration: credentials not yet set.
    pub fn new() -> (r: BinanceConfig)
        ensures
            r.spec_key() == Seq::<char>::empty(),
            r.spec_secret() == Seq::<char>::empty(),
    {
        BinanceConfig { api_key: String::new(), api_secret: String::new() }
    }

    pub fn set_binance_api_credentials(&mut self, api_key: String, api_secret: String)
        ensures
            final(self).spec_key() == api_key@,
            final(self).spec_secret() == api_secret@,
    {
        self.set_binance_api_key(api_key);
        self.set_binance_api_secret(api_secret);
    }

    pub fn set_binance_api_key(&mut self, api_key: String)
        ensures
            final(self).spec_key() == api_key@,
            final(self).spec_secret() == old(self).spec_secret(),
    {
        self.api_key = api_key;
    }

    pub fn get_binance_api_key(&self) -> (r: &String)
        ensures
            r@ == self.spec_key(),
    {
        &self.api_key
    }

    pub fn set_binance_api_secret(&mut self, api_secret: String)
        ensures
            final(self).spec_secret() == api_secret@,
            final(self).spec_key() == old(self).spec_key(),
    {
        self.api_secret = api_secret;
    }

    pub fn get_binance_api_secret(&self) -> (r: &String)
        ensures
            r@ == self.spec_secret(),
    {
        &self.api_secret
    }

    pub fn get_binance_api_url() -> (r: String)
        ensures
            r@ == "https://api.binance.com"@,
    {
        String::from_str("https://api.binance.com")
    }

    pub fn get_binance_api_version() -> (r: String)
        ensures
            r@ == "v3"@,
    {
        String::from_str("v3")
    }

    /// The fixed request timeout, in milliseconds.
    pub fn get_binance_api_timeout() -> (r: u64)
        ensures
            r == 5000,
    {
        5000
    }
}

/// Method classification and time utilities for the venue.
pub struct BinanceUtils;

impl BinanceUtils {
    pub fn is_method_public(method: &str) -> (r: bool)
        ensures
            r == bin_is_public(method.spec_bytes()),
    {
        crate::bytes::bytes_eq(method.as_bytes(), "Time".as_bytes())
    }

    pub fn is_method_private(method: &str) -> (r: bool)
        ensures
            r == bin_is_private(method.spec_bytes()),
    {
        crate::bytes::bytes_eq(method.as_bytes(), "account".as_bytes())
            || crate::bytes::bytes_eq(method.as_bytes(), "myTrades".as_bytes())
    }

    /// `"public"`, `"private"`, or `"invalid"`; an unrecognized name never
    /// passes as public.
    pub fn get_method_type(method: &str) -> (r: &str)
        ensures
            bin_is_public(method.spec_bytes()) ==> r@ == "public"@,
            (!bin_is_public(method.spec_bytes()) && bin_is_private(method.spec_bytes())) ==> r@
                == "private"@,
            (!bin_is_public(method.spec_bytes()) && !bin_is_private(method.spec_bytes())) ==> r@
                == "invalid"@,
    {
        let method_type: &str = if BinanceUtils::is_method_public(method) {
            "public"
        } else if BinanceUtils::is_method_private(method) {
            "private"
        } else {
            "invalid"
        };
        method_type
    }

    /// The fixed local clock-offset applied to receipt times.
    pub fn get_time_offset_millis() -> (r: u64)
        ensures
            r == TIME_OFFSET_MS_BINANCE,
    {
        TIME_OFFSET_MS_BINANCE
    }
}

} // verus!
