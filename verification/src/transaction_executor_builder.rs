//! What a send provider is told about an attempt, and the provider that
//! pays a growing tip to a relay endpoint.

use vstd::prelude::*;
use crate::tip_policy::{TipPolicy, tip_at};

verus! {

/// What the executor tells a send provider about the attempt it sends.
#[derive(Clone, Copy, Debug, PartialEq, Eq, Structural)]
pub struct SendTransactionMeta {
    /// Number of the attempt, counting from 1.
    pub attempt: u32,
}

/// A send provider that posts each attempt to a relay endpoint and pays a tip
/// that grows with the attempt number.
#[derive(Clone, Debug)]
pub struct SendTransactionWithGrowingTipProvider {
    pub rpc_url: String,
    pub tip_policy: TipPolicy,
    pub query_param: String,
}

impl Default for SendTransactionWithGrowingTipProvider {
    fn default() -> (r: Self)
        ensures
            r.rpc_url@ == Seq::<char>::empty(),
            r.tip_policy.tip_min == 1000,
            r.tip_policy.tip_max == 200000,
            r.tip_policy.multiplier_per_attempt == 4,
            r.query_param@ == seq!['t', 'i', 'p'],
    {
        let mut query_param = String::new();
        query_param.append("tip");
        proof {
            reveal_strlit("tip");
        }
        SendTransactionWithGrowingTipProvider { rpc_url: String::new(), tip_policy: TipPolicy::default(), query_param }
    }
}

/// The character of the standard base64 alphabet (`A-Z`, `a-z`, `0-9`, `+`,
/// `/`) for a six-bit value.
pub open spec fn base64_char(v: int) -> char {
    if v < 26 {
        (65 + v) as char
    } else if v < 52 {
        (97 + (v - 26)) as char
    } else if v < 62 {
        (48 + (v - 52)) as char
    } else if v == 62 {
        '+'
    } else {
        '/'
    }
}

/// The standard base64 encoding of `data`: each group of three bytes becomes
/// four characters; a last group of one or two bytes is padded with `=`.
pub open spec fn base64_standard(data: Seq<u8>) -> Seq<char>
    decreases data.len(),
{
    if data.len() == 0 {
        Seq::empty()
    } else if data.len() == 1 {
        seq![base64_char((data[0] as int) / 4), base64_char(((data[0] as int) % 4) * 16), '=', '=']
    } else if data.len() == 2 {
        seq![
            base64_char((data[0] as int) / 4),
            base64_char(((data[0] as int) % 4) * 16 + (data[1] as int) / 16),
            base64_char(((data[1] as int) % 16) * 4),
            '=',
        ]
    } else {
        seq![
            base64_char((data[0] as int) / 4),
            base64_char(((data[0] as int) % 4) * 16 + (data[1] as int) / 16),
            base64_char(((data[1] as int) % 16) * 4 + (data[2] as int) / 64),
            base64_char((data[2] as int) % 64),
        ] + base64_standard(data.subrange(3, data.len() as int))
    }
}

/// Calls `base64::encode`, which encodes with the `STANDARD` engine: the
/// standard alphabet, with `=` padding.
#[verifier::external_body]
fn base64_encode(data: &[u8]) -> (r: String)
    requires
        data@.len() < usize::MAX / 2,
    ensures
        r@ == base64_standard(data@),
{
    #[allow(deprecated)]
    base64::encode(data)
}

/// The opening of a `sendTransaction` JSON-RPC request, up to the encoded
/// transaction; the keys of each object come in sorted order.
pub open spec fn body_prefix() -> Seq<char> {
    "{\"id\":1,\"jsonrpc\":\"2.0\",\"method\":\"sendTransaction\",\"params\":[\""@
}

/// The rest of the request after the encoded transaction: base64 encoding, preflight skipped.
pub open spec fn body_suffix() -> Seq<char> {
    "\",{\"encoding\":\"base64\",\"skipPreflight\":true}]}"@
}

/// The JSON-RPC request that sends a base64-encoded transaction.
pub fn send_transaction_body(encoded_transaction: &str) -> (r: String)
    ensures
        r@ == body_prefix() + encoded_transaction@ + body_suffix(),
{
    let mut body = String::new();
    body.append("{\"id\":1,\"jsonrpc\":\"2.0\",\"method\":\"sendTransaction\",\"params\":[\"");
    body.append(encoded_transaction);
    body.append("\",{\"encoding\":\"base64\",\"skipPreflight\":true}]}");
    body
}

/// An HTTP request to post: to `url`, with the query parameter `query_name`
/// set to `tip`, and `body` as its JSON body.
#[derive(Clone, Debug)]
pub struct TipRequest {
    pub url: String,
    pub query_name: String,
    pub tip: u64,
    pub body: String,
}

impl SendTransactionWithGrowingTipProvider {
    /// The request that sends the serialized transaction of an attempt: to the
    /// relay endpoint, with the tip of that attempt.
    pub fn prepare_request(&self, serialized_transaction: &[u8], meta: &SendTransactionMeta) -> (r: TipRequest)
        requires
            serialized_transaction@.len() < usize::MAX / 2,
        ensures
            r.url@ == self.rpc_url@,
            r.query_name@ == self.query_param@,
            r.tip == tip_at(self.tip_policy, meta.attempt as nat),
            r.body@ == body_prefix() + base64_standard(serialized_transaction@) + body_suffix(),
    {
        let tip = self.tip_policy.get_tip_configuration(meta.attempt).tip;
        let encoded = base64_encode(serialized_transaction);
        let body = send_transaction_body(encoded.as_str());
        TipRequest { url: self.rpc_url.clone(), query_name: self.query_param.clone(), tip, body }
    }
}

} // verus!
