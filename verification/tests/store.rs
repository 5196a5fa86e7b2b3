//! The embedding cache.

use base64::Engine;
use soul_memory::client::{B00tSoulClient, GetStep, ListKeysStep, KV_TIMEOUT_SECS};
use soul_memory::embedding::{
    decode_embedding, embedding_from_bytes, embedding_from_decoding, embedding_to_bytes,
    encode_embedding, EmbeddingError,
};
use soul_memory::exchange::{judge, Body, Context, Fault, Method, Request};
use soul_memory::shim::{
    cache_key, B00tSoulShim, CacheEntry, GetEmbeddingStep, PutEmbeddingStep, ShimError, CACHE_NS,
};

type Cause = &'static str;

fn bits(v: &[f32]) -> Vec<u32> {
    v.iter().map(|f| f.to_bits()).collect()
}

fn floats(v: &[u32]) -> Vec<f32> {
    v.iter().map(|w| f32::from_bits(*w)).collect()
}

/// A shim whose soul server cannot be reached.
fn fallback_shim() -> B00tSoulShim {
    B00tSoulShim::with_soul_url("http://127.0.0.1:19999")
}

fn unreachable_server() -> Result<u16, Cause> {
    Err("connection refused")
}

fn value_of(request: &Request) -> String {
    match &request.body {
        Body::Value { value } => value.clone(),
        _ => panic!("no value in {:?}", request),
    }
}

#[test]
fn shim_embedding_cache_falls_back_to_local() {
    let shim = fallback_shim();
    let mut local: Vec<(String, Vec<f32>)> = Vec::new();

    let embedding = [1.0f32, 0.0];
    let request = shim.soul_put_embedding("openai", "text-3", "hash1", &bits(&embedding));
    assert_eq!(request.method, Method::Put);
    match shim.soul_put(B00tSoulClient::put_sent(unreachable_server())) {
        PutEmbeddingStep::WriteLocal(fault) => {
            assert!(fault.is_some());
            local.push((cache_key("openai", "text-3", "hash1"), embedding.to_vec()));
        },
        PutEmbeddingStep::Failed(error) => panic!("{:?}", error),
    }

    let request = shim.soul_get_embedding("openai", "text-3", "hash1");
    assert_eq!(request.method, Method::Get);
    let soul = match B00tSoulClient::get_sent(unreachable_server()) {
        GetStep::Done(soul) => soul,
        GetStep::ReadBody => panic!("there is no body"),
    };
    let got = match shim.soul_got(soul) {
        GetEmbeddingStep::AskLocal(_) => {
            let key = cache_key("openai", "text-3", "hash1");
            local.iter().find(|e| e.0 == key).map(|e| e.1.clone())
        },
        GetEmbeddingStep::Done(result) => panic!("{:?}", result),
    };
    assert!(got.is_some());
    let vec = got.unwrap();
    assert!((vec[0] - 1.0f32).abs() < 1e-5);
}

#[test]
fn shim_strict_mode_errors_on_unreachable_soul() {
    let shim = B00tSoulShim::with_soul_url("http://127.0.0.1:19999").strict();
    let _request = shim.soul_put_embedding("openai", "text-3", "hash2", &bits(&[0.5]));
    let result = shim.soul_put(B00tSoulClient::put_sent(unreachable_server()));
    assert!(
        matches!(result, PutEmbeddingStep::Failed(_)),
        "strict mode must propagate soul API error"
    );
    assert_eq!(
        result,
        PutEmbeddingStep::Failed(ShimError::Soul(Fault::Failed {
            context: Context::PutRequest,
            cause: "connection refused",
        }))
    );
}

#[test]
fn encode_decode_embedding_roundtrip() {
    let v = vec![1.0f32, -0.5, 0.25, 0.0];
    let encoded = encode_embedding(&bits(&v));
    let decoded = floats(&decode_embedding(&encoded).unwrap());
    assert_eq!(v.len(), decoded.len());
    for (a, b) in v.iter().zip(decoded.iter()) {
        assert!((a - b).abs() < 1e-6);
    }
}

#[test]
fn an_embedding_is_encoded_in_little_endian_base64() {
    // 1.0 is 0x3f800000, and -0.5 is 0xbf000000.
    assert_eq!(embedding_to_bytes(&bits(&[1.0])), vec![0x00, 0x00, 0x80, 0x3f]);
    assert_eq!(embedding_to_bytes(&[0x0403_0201]), vec![1, 2, 3, 4]);
    assert_eq!(encode_embedding(&bits(&[1.0])), "AACAPw==");
    assert_eq!(encode_embedding(&bits(&[1.0, -0.5])), "AACAPwAAAL8=");
    assert_eq!(encode_embedding(&[]), "");
    let words: Vec<u32> = (0u32..50).map(|i| i.wrapping_mul(0x9e37_79b9)).collect();
    let mut bytes: Vec<u8> = Vec::new();
    for w in &words {
        bytes.extend_from_slice(&w.to_le_bytes());
    }
    assert_eq!(embedding_to_bytes(&words), bytes);
    assert_eq!(
        encode_embedding(&words),
        base64::engine::general_purpose::STANDARD.encode(&bytes)
    );
}

#[test]
fn every_bit_pattern_survives() {
    let words = vec![
        0,
        1,
        u32::MAX,
        f32::NAN.to_bits(),
        f32::INFINITY.to_bits(),
        f32::NEG_INFINITY.to_bits(),
        (-0.0f32).to_bits(),
        f32::MIN_POSITIVE.to_bits(),
        0x7fc0_1234,
    ];
    assert_eq!(decode_embedding(&encode_embedding(&words)), Ok(words));
    assert_eq!(decode_embedding(""), Ok(vec![]));
}

#[test]
fn bytes_left_over_are_ignored() {
    assert_eq!(embedding_from_bytes(&[1, 2, 3, 4, 5, 6, 7]), vec![0x0403_0201]);
    assert_eq!(embedding_from_bytes(&[1, 2, 3]), Vec::<u32>::new());
    // "AQIDBAU=" is the bytes 1 to 5.
    assert_eq!(decode_embedding("AQIDBAU="), Ok(vec![0x0403_0201]));
    assert_eq!(embedding_from_decoding(Ok(vec![1, 2, 3, 4, 9])), Ok(vec![0x0403_0201]));
}

#[test]
fn bytes_and_embedding_determine_each_other() {
    let bytes: Vec<u8> = (0u8..=255).collect();
    assert_eq!(embedding_to_bytes(&embedding_from_bytes(&bytes)), bytes);
}

#[test]
fn a_text_of_whole_numbers_is_that_of_its_embedding() {
    let symbols = "ABCDEFGHIJKLMNOPQRSTUVWXYZabcdefghijklmnopqrstuvwxyz0123456789+/";
    for text in ["", "AACAPw==", "AACAPwAAAL8=", "AQIDBAUGBwgJCgsM", symbols] {
        let v = decode_embedding(text).unwrap();
        assert_eq!(encode_embedding(&v), text);
        assert_eq!(text.len(), (4 * v.len() + 2) / 3 * 4);
    }
    // A text with a byte left over is not what its embedding is encoded as.
    let v = decode_embedding("AQIDBAU=").unwrap();
    assert_eq!(encode_embedding(&v), "AQIDBA==");
    // "AACAPx==" sets bits that are not decoded.
    assert_eq!(
        decode_embedding("AACAPx=="),
        Err(EmbeddingError::Base64(base64::DecodeError::InvalidLastSymbol(5, b'x')))
    );
}

#[test]
fn text_that_is_no_base64_is_an_error() {
    assert_eq!(
        decode_embedding("AA!A"),
        Err(EmbeddingError::Base64(base64::DecodeError::InvalidByte(2, b'!')))
    );
    assert_eq!(
        decode_embedding("AACAPw"),
        Err(EmbeddingError::Base64(base64::DecodeError::InvalidPadding))
    );
    assert_eq!(
        embedding_from_decoding(Err(base64::DecodeError::InvalidLength(1))),
        Err(EmbeddingError::Base64(base64::DecodeError::InvalidLength(1)))
    );
}

#[test]
fn the_cache_key_is_canonical() {
    assert_eq!(cache_key("openai", "text-3", "hash1"), "moltis:emb_cache:openai:text-3:hash1");
    assert_eq!(cache_key("", "", ""), "moltis:emb_cache:::");
    assert!(cache_key("p", "m", "h").starts_with(CACHE_NS));
    assert_ne!(cache_key("ollama", "llama3:8b", "h"), cache_key("ollama", "llama3", "h"));
    assert_ne!(cache_key("a", "b:c", "d"), cache_key("a", "c:b", "d"));
    // Without a bound on the colons, keys can fall together.
    assert_eq!(cache_key("a", "b:c", "d"), cache_key("a:b", "c", "d"));
}

#[test]
fn a_key_is_one_path_segment() {
    assert_eq!(B00tSoulClient::key_path("plain-key_1.~ x"), "plain-key_1.~ x");
    assert_eq!(B00tSoulClient::key_path("plain:key"), "plain%3Akey");
    assert_eq!(B00tSoulClient::key_path("a/b//c/"), "a%2Fb%2F%2Fc%2F");
    assert_eq!(B00tSoulClient::key_path("a?b#c%d\\e"), "a%3Fb%23c%25d%5Ce");
    assert_eq!(B00tSoulClient::key_path("/"), "%2F");
    assert_eq!(B00tSoulClient::key_path(""), "");
    assert_eq!(B00tSoulClient::key_path("h\u{e9}/\u{1f462}"), "h\u{e9}%2F\u{1f462}");
    let path = B00tSoulClient::key_path(&cache_key("p/q", "m?n#o\\r", "h"));
    assert!(!path.contains(['/', '\\', ':', '?', '#']));
    assert_ne!(B00tSoulClient::key_path("a/b"), B00tSoulClient::key_path("ab"));
    assert_ne!(B00tSoulClient::key_path("a/b"), B00tSoulClient::key_path("a%2Fb"));
    assert_ne!(B00tSoulClient::key_path("a%2Fb"), B00tSoulClient::key_path("a%252Fb"));
}

#[test]
fn requests_of_the_key_value_store() {
    let client = B00tSoulClient::new("http://host:1");
    assert_eq!(client.timeout_secs, 2);
    assert_eq!(KV_TIMEOUT_SECS, 2);
    assert_eq!(
        client.get("a/b"),
        Request {
            method: Method::Get,
            url: "http://host:1/v1/kv/a%2Fb".to_string(),
            query: None,
            body: Body::Empty,
        }
    );
    assert_eq!(
        client.put("a/b", "v"),
        Request {
            method: Method::Put,
            url: "http://host:1/v1/kv/a%2Fb".to_string(),
            query: None,
            body: Body::Value { value: "v".to_string() },
        }
    );
    assert_eq!(
        client.delete("k"),
        Request {
            method: Method::Delete,
            url: "http://host:1/v1/kv/k".to_string(),
            query: None,
            body: Body::Empty,
        }
    );
    assert_eq!(
        client.list_keys("moltis:"),
        Request {
            method: Method::Get,
            url: "http://host:1/v1/kv".to_string(),
            query: Some(("prefix".to_string(), "moltis:".to_string())),
            body: Body::Empty,
        }
    );
}

#[test]
fn responses_of_the_key_value_store() {
    let sent = |status: u16| -> Result<u16, Cause> { Ok(status) };
    assert_eq!(B00tSoulClient::get_sent(sent(404)), GetStep::Done(Ok(None)));
    assert_eq!(B00tSoulClient::get_sent(sent(200)), GetStep::ReadBody);
    assert_eq!(B00tSoulClient::get_sent(sent(302)), GetStep::ReadBody);
    assert_eq!(B00tSoulClient::get_sent(sent(399)), GetStep::ReadBody);
    assert_eq!(B00tSoulClient::get_sent(sent(600)), GetStep::ReadBody);
    for status in [400, 403, 405, 500, 599] {
        assert_eq!(
            B00tSoulClient::get_sent(sent(status)),
            GetStep::Done(Err(Fault::Status { context: Context::GetStatus, status }))
        );
    }
    assert_eq!(
        B00tSoulClient::get_sent(unreachable_server()),
        GetStep::Done(Err(Fault::Failed {
            context: Context::GetRequest,
            cause: "connection refused",
        }))
    );
    assert_eq!(
        B00tSoulClient::get_read(Ok::<String, Cause>("v".to_string())),
        Ok(Some("v".to_string()))
    );
    assert_eq!(
        B00tSoulClient::get_read(Err("no JSON")),
        Err(Fault::Failed { context: Context::GetDecode, cause: "no JSON" })
    );

    assert_eq!(B00tSoulClient::put_sent(sent(204)), Ok(()));
    assert_eq!(
        B00tSoulClient::put_sent(sent(404)),
        Err(Fault::Status { context: Context::PutStatus, status: 404 })
    );
    assert_eq!(B00tSoulClient::delete_sent(sent(204)), Ok(()));
    assert_eq!(
        B00tSoulClient::delete_sent(sent(503)),
        Err(Fault::Status { context: Context::DeleteStatus, status: 503 })
    );
    assert_eq!(
        B00tSoulClient::delete_sent(unreachable_server()),
        Err(Fault::Failed { context: Context::DeleteRequest, cause: "connection refused" })
    );

    assert_eq!(B00tSoulClient::list_keys_sent(sent(200)), ListKeysStep::ReadBody);
    assert_eq!(
        B00tSoulClient::list_keys_sent(sent(404)),
        ListKeysStep::Failed(Fault::Status { context: Context::ListKeysStatus, status: 404 })
    );
    assert_eq!(
        B00tSoulClient::list_keys_sent(unreachable_server()),
        ListKeysStep::Failed(Fault::Failed {
            context: Context::ListKeysRequest,
            cause: "connection refused",
        })
    );
    assert_eq!(
        B00tSoulClient::list_keys_read(Ok::<Vec<String>, Cause>(vec!["k".to_string()])),
        Ok(vec!["k".to_string()])
    );
    assert_eq!(
        B00tSoulClient::list_keys_read(Err("no JSON")),
        Err(Fault::Failed { context: Context::ListKeysDecode, cause: "no JSON" })
    );
    assert_eq!(
        judge(sent(499), Context::PutRequest, Context::PutStatus),
        Err(Fault::Status { context: Context::PutStatus, status: 499 })
    );
}

#[test]
fn the_words_of_a_failure() {
    assert_eq!(Context::GetRequest.text(), "b00t soul GET request");
    assert_eq!(Context::GetStatus.text(), "b00t soul GET status");
    assert_eq!(Context::GetDecode.text(), "b00t soul GET decode");
    assert_eq!(Context::PutRequest.text(), "b00t soul PUT request");
    assert_eq!(Context::PutStatus.text(), "b00t soul PUT status");
    assert_eq!(Context::DeleteRequest.text(), "b00t soul DELETE request");
    assert_eq!(Context::DeleteStatus.text(), "b00t soul DELETE status");
    assert_eq!(Context::ListKeysRequest.text(), "b00t soul list_keys request");
    assert_eq!(Context::ListKeysStatus.text(), "b00t soul list_keys status");
    assert_eq!(Context::ListKeysDecode.text(), "b00t soul list_keys decode");
    assert_eq!(
        EmbeddingError::Base64(base64::DecodeError::InvalidPadding).text(),
        "decode base64 embedding"
    );
}

#[test]
fn the_shim_and_its_modes() {
    let shim = B00tSoulShim::new();
    assert_eq!(shim.soul.base_url, "http://127.0.0.1:7700");
    assert!(shim.fallback_on_error);
    let strict = B00tSoulShim::with_soul_url("http://host:1").strict();
    assert_eq!(strict.soul.base_url, "http://host:1");
    assert_eq!(strict.soul.timeout_secs, 2);
    assert!(!strict.fallback_on_error);
}

#[test]
fn a_lookup_finds_what_was_stored() {
    let shim = B00tSoulShim::new();
    let embedding = bits(&[1.5, -2.25, 0.0]);
    let put = shim.soul_put_embedding("openai", "org/model", "h", &embedding);
    let get = shim.soul_get_embedding("openai", "org/model", "h");
    assert_eq!(put.url, "http://127.0.0.1:7700/v1/kv/moltis%3Aemb_cache%3Aopenai%3Aorg%2Fmodel%3Ah");
    assert_eq!(put.url, get.url);
    let body: Result<String, Cause> = Ok(value_of(&put));
    let soul = B00tSoulClient::get_read(body);
    assert_eq!(shim.soul_got(soul), GetEmbeddingStep::Done(Ok(Some(embedding))));
}

#[test]
fn a_missing_entry_is_a_miss_in_both_modes() {
    for shim in [B00tSoulShim::new(), B00tSoulShim::new().strict()] {
        let soul: Result<Option<String>, Fault<Cause>> = Ok(None);
        assert_eq!(shim.soul_got(soul), GetEmbeddingStep::Done(Ok(None)));
    }
}

#[test]
fn a_text_that_is_no_embedding_fails_in_both_modes() {
    for shim in [B00tSoulShim::new(), B00tSoulShim::new().strict()] {
        let soul: Result<Option<String>, Fault<Cause>> = Ok(Some("AA!A".to_string()));
        assert_eq!(
            shim.soul_got(soul),
            GetEmbeddingStep::Done(Err(ShimError::Embedding(EmbeddingError::Base64(
                base64::DecodeError::InvalidByte(2, b'!')
            ))))
        );
    }
}

#[test]
fn a_decoded_text_ends_the_lookup() {
    assert_eq!(
        B00tSoulShim::soul_decoded::<Cause>(Ok(vec![7])),
        GetEmbeddingStep::Done(Ok(Some(vec![7])))
    );
}

#[test]
fn a_failure_of_the_server_is_hidden_or_handed_on() {
    let fault = || -> Fault<Cause> { Fault::Status { context: Context::GetStatus, status: 500 } };
    let soul: Result<Option<String>, Fault<Cause>> = Err(fault());
    assert_eq!(B00tSoulShim::new().soul_got(soul), GetEmbeddingStep::AskLocal(fault()));
    let soul: Result<Option<String>, Fault<Cause>> = Err(fault());
    assert_eq!(
        B00tSoulShim::new().strict().soul_got(soul),
        GetEmbeddingStep::Done(Err(ShimError::Soul(fault())))
    );
    assert_eq!(
        B00tSoulShim::new().soul_put(Err(fault())),
        PutEmbeddingStep::WriteLocal(Some(fault()))
    );
    for shim in [B00tSoulShim::new(), B00tSoulShim::new().strict()] {
        assert_eq!(shim.soul_put::<Cause>(Ok(())), PutEmbeddingStep::WriteLocal(None));
    }
}

#[test]
fn a_batch_is_stored_entry_by_entry() {
    let shim = B00tSoulShim::new();
    let (first, second) = (bits(&[1.0]), bits(&[0.5, 0.25]));
    let entries = [
        CacheEntry {
            provider: "p1",
            model: "m1",
            provider_key: "k1",
            hash: "h1",
            embedding: &first,
        },
        CacheEntry {
            provider: "p2",
            model: "m2",
            provider_key: "k2",
            hash: "h2",
            embedding: &second,
        },
    ];
    let requests = shim.batch_requests(&entries);
    assert_eq!(requests.len(), 2);
    assert_eq!(requests[0], shim.soul_put_embedding("p1", "m1", "h1", &first));
    assert_eq!(requests[1], shim.soul_put_embedding("p2", "m2", "h2", &second));
    for (request, embedding) in requests.iter().zip([&first, &second]) {
        assert_eq!(decode_embedding(&value_of(request)).as_ref(), Ok(embedding));
    }
    assert!(shim.batch_requests(&[]).is_empty());
}

#[test]
fn the_first_error_of_a_batch_counts() {
    assert_eq!(B00tSoulShim::put_cached_embeddings_batch::<Cause>(vec![]), Ok(()));
    assert_eq!(
        B00tSoulShim::put_cached_embeddings_batch::<Cause>(vec![Ok(()), Ok(())]),
        Ok(())
    );
    assert_eq!(
        B00tSoulShim::put_cached_embeddings_batch(vec![Ok(()), Err("a"), Ok(()), Err("b")]),
        Err("a")
    );
}
