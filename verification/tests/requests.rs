use serde_json::Value;
use transaction_executor::tip_policy::TipPolicy;
use transaction_executor::transaction_executor_builder::{
    send_transaction_body, SendTransactionMeta, SendTransactionWithGrowingTipProvider,
};

#[test]
fn default_growing_tip_provider() {
    let provider = SendTransactionWithGrowingTipProvider::default();
    assert_eq!(provider.rpc_url, "");
    assert_eq!(provider.query_param, "tip");
    assert_eq!(provider.tip_policy.tip_min, 1000);
    assert_eq!(provider.tip_policy.tip_max, 200000);
    assert_eq!(provider.tip_policy.multiplier_per_attempt, 4);
}

#[test]
fn body_wraps_the_encoded_transaction() {
    assert_eq!(
        send_transaction_body("AQID"),
        "{\"id\":1,\"jsonrpc\":\"2.0\",\"method\":\"sendTransaction\",\"params\":[\"AQID\",{\"encoding\":\"base64\",\"skipPreflight\":true}]}"
    );
}

#[test]
fn body_is_valid_json_rpc() {
    let body = send_transaction_body("AAEC");
    let value: serde_json::Value = serde_json::from_str(&body).unwrap();
    assert_eq!(value["jsonrpc"], "2.0");
    assert_eq!(value["id"], 1);
    assert_eq!(value["method"], "sendTransaction");
    assert_eq!(value["params"][0], "AAEC");
    assert_eq!(value["params"][1]["encoding"], "base64");
    assert_eq!(value["params"][1]["skipPreflight"], true);
}

#[test]
fn request_encodes_the_transaction_and_pays_the_tip_of_the_attempt() {
    let provider = SendTransactionWithGrowingTipProvider {
        rpc_url: "https://relay.example/rpc".to_string(),
        tip_policy: TipPolicy::default(),
        query_param: "tip".to_string(),
    };
    let request = provider.prepare_request(&[1, 2, 3], &SendTransactionMeta { attempt: 2 });
    assert_eq!(request.url, "https://relay.example/rpc");
    assert_eq!(request.query_name, "tip");
    assert_eq!(request.tip, 16000);
    assert_eq!(request.body, send_transaction_body("AQID"));
}

#[test]
fn request_encoding_pads_like_base64() {
    let provider = SendTransactionWithGrowingTipProvider::default();
    let request = provider.prepare_request(&[0xff, 0xfe], &SendTransactionMeta { attempt: 1 });
    assert_eq!(request.body, send_transaction_body("//4="));
    assert_eq!(request.tip, 4000);
    let empty = provider.prepare_request(&[], &SendTransactionMeta { attempt: 0 });
    assert_eq!(empty.body, send_transaction_body(""));
    assert_eq!(empty.tip, 1000);
}

#[test]
fn body_matches_the_serialized_json_value() {
    let mut options = serde_json::Map::new();
    options.insert("encoding".to_string(), Value::from("base64"));
    options.insert("skipPreflight".to_string(), Value::Bool(true));
    let mut request = serde_json::Map::new();
    request.insert("jsonrpc".to_string(), Value::from("2.0"));
    request.insert("id".to_string(), Value::from(1));
    request.insert("method".to_string(), Value::from("sendTransaction"));
    request.insert("params".to_string(), Value::Array(vec![Value::from("AQID"), Value::Object(options)]));
    let value = Value::Object(request);
    assert_eq!(send_transaction_body("AQID"), serde_json::to_string(&value).unwrap());
}

#[test]
fn request_encodes_every_group_of_three_bytes() {
    let provider = SendTransactionWithGrowingTipProvider::default();
    let bytes: Vec<u8> = (0u8..=255).collect();
    let request = provider.prepare_request(&bytes, &SendTransactionMeta { attempt: 0 });
    #[allow(deprecated)]
    let expected = base64::encode(&bytes);
    assert_eq!(request.body, send_transaction_body(&expected));
    let one = provider.prepare_request(&[0x4d], &SendTransactionMeta { attempt: 0 });
    assert_eq!(one.body, send_transaction_body("TQ=="));
}
