use cactus::codec::{decode_request, decode_response, encode_request, encode_response};
use cactus::types::{
    ModelType, ParamEntry, PredictionRequest, PredictionResponse, QualityPreset,
};

fn sd_request() -> PredictionRequest {
    PredictionRequest {
        model_type: ModelType::StableDiffusion,
        model_cid: String::from("cid-a"),
        image_url: None,
        prompt: Some(String::from("cat")),
        quality_preset: Some(QualityPreset::Fast),
    }
}

fn assert_requests_equal(a: &PredictionRequest, b: &PredictionRequest) {
    assert_eq!(a.model_type, b.model_type);
    assert_eq!(a.model_cid, b.model_cid);
    assert_eq!(a.image_url, b.image_url);
    assert_eq!(a.prompt, b.prompt);
    assert_eq!(a.quality_preset, b.quality_preset);
}

fn assert_responses_equal(a: &PredictionResponse, b: &PredictionResponse) {
    assert_eq!(a.success, b.success);
    assert_eq!(a.prompt, b.prompt);
    assert_eq!(a.generation_time_ms, b.generation_time_ms);
    match (&a.parameters, &b.parameters) {
        (None, None) => {}
        (Some(x), Some(y)) => {
            assert_eq!(x.len(), y.len());
            for (p, q) in x.iter().zip(y.iter()) {
                assert_eq!(p.name, q.name);
                assert_eq!(p.value, q.value);
            }
        }
        _ => panic!("parameter presence differs"),
    }
    assert_eq!(a.timestamp, b.timestamp);
    assert_eq!(a.image_base64, b.image_base64);
    assert_eq!(a.error, b.error);
}

#[test]
fn request_exact_wire_form() {
    let encoded = encode_request(&sd_request());
    assert_eq!(
        encoded,
        "{\"model_type\":\"stable_diffusion\",\"model_cid\":\"cid-a\",\"image_url\":null,\"prompt\":\"cat\",\"quality_preset\":\"fast\"}"
    );
}

#[test]
fn request_round_trip_stable_diffusion() {
    let req = sd_request();
    let back = decode_request(&encode_request(&req)).expect("own encoding must parse");
    assert_requests_equal(&req, &back);
}

#[test]
fn request_round_trip_covid() {
    let req = PredictionRequest {
        model_type: ModelType::CovidXRay,
        model_cid: String::from("cid-b"),
        image_url: Some(String::from("http://example.test/x.png")),
        prompt: None,
        quality_preset: None,
    };
    let back = decode_request(&encode_request(&req)).expect("own encoding must parse");
    assert_requests_equal(&req, &back);
}

#[test]
fn request_round_trip_with_escapes() {
    let req = PredictionRequest {
        model_type: ModelType::StableDiffusion,
        model_cid: String::from("ci\"d\\x"),
        image_url: Some(String::from("a\\\"b")),
        prompt: Some(String::from("say \"hi\" \\ twice")),
        quality_preset: Some(QualityPreset::Quality),
    };
    let back = decode_request(&encode_request(&req)).expect("escapes must round trip");
    assert_requests_equal(&req, &back);
}

#[test]
fn request_encoding_is_real_json() {
    let req = PredictionRequest {
        model_type: ModelType::StableDiffusion,
        model_cid: String::from("cid-a"),
        image_url: None,
        prompt: Some(String::from("a \"quoted\" prompt")),
        quality_preset: Some(QualityPreset::Balanced),
    };
    let encoded = encode_request(&req);
    let value: serde_json::Value = serde_json::from_str(&encoded).expect("must be valid JSON");
    assert_eq!(
        value.get("prompt").and_then(|v| v.as_str()),
        Some("a \"quoted\" prompt")
    );
    assert_eq!(
        value.get("model_type").and_then(|v| v.as_str()),
        Some("stable_diffusion")
    );
    assert_eq!(value.get("quality_preset").and_then(|v| v.as_str()), Some("balanced"));
    assert!(value.get("image_url").unwrap().is_null());
}

#[test]
fn response_round_trip_full() {
    let resp = PredictionResponse {
        success: true,
        prompt: Some(String::from("cat")),
        generation_time_ms: Some(10543),
        parameters: Some(vec![
            ParamEntry { name: String::from("num_inference_steps"), value: String::from("20") },
            ParamEntry { name: String::from("guidance_scale"), value: String::from("7.5") },
        ]),
        timestamp: Some(String::from("2024-01-01T00:00:00Z")),
        image_base64: Some(String::from("aGVsbG8=")),
        error: None,
    };
    let back = decode_response(&encode_response(&resp)).expect("own encoding must parse");
    assert_responses_equal(&resp, &back);
}

#[test]
fn response_round_trip_failure_body() {
    let resp = PredictionResponse {
        success: false,
        prompt: None,
        generation_time_ms: None,
        parameters: None,
        timestamp: None,
        image_base64: None,
        error: Some(String::from("Failed to load model: boom")),
    };
    let back = decode_response(&encode_response(&resp)).expect("own encoding must parse");
    assert_responses_equal(&resp, &back);
}

#[test]
fn response_round_trip_empty_parameters() {
    let resp = PredictionResponse {
        success: true,
        prompt: None,
        generation_time_ms: Some(0),
        parameters: Some(Vec::new()),
        timestamp: None,
        image_base64: None,
        error: None,
    };
    let back = decode_response(&encode_response(&resp)).expect("own encoding must parse");
    assert_responses_equal(&resp, &back);
}

#[test]
fn response_encoding_is_real_json() {
    let resp = PredictionResponse {
        success: true,
        prompt: Some(String::from("cat")),
        generation_time_ms: Some(42),
        parameters: Some(vec![ParamEntry {
            name: String::from("steps"),
            value: String::from("20"),
        }]),
        timestamp: None,
        image_base64: None,
        error: None,
    };
    let encoded = encode_response(&resp);
    let value: serde_json::Value = serde_json::from_str(&encoded).expect("must be valid JSON");
    assert_eq!(value.get("success").and_then(|v| v.as_bool()), Some(true));
    assert_eq!(value.get("generation_time_ms").and_then(|v| v.as_u64()), Some(42));
    assert_eq!(
        value
            .get("parameters")
            .and_then(|p| p.get("steps"))
            .and_then(|v| v.as_str()),
        Some("20")
    );
}

#[test]
fn malformed_input_is_rejected() {
    assert!(decode_request("").is_none());
    assert!(decode_request("{}").is_none());
    assert!(decode_request("{\"model_type\":\"unknown\",").is_none());
    assert!(decode_response("").is_none());
    assert!(decode_response("{\"success\":maybe}").is_none());
    // Trailing garbage after a complete body is refused.
    let good = encode_request(&sd_request());
    let mut padded = good.clone();
    padded.push(' ');
    assert!(decode_request(&good).is_some());
    assert!(decode_request(&padded).is_none());
}
