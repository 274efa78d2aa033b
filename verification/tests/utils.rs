use statsig_forward_proxy::servers::sdk_key_normalizer::redact_sdk_keys;
use statsig_forward_proxy::utils::compress_encoder::{
    encoding_priority, format_compression_encodings, sort_and_dedup, CompressionEncoder,
    ParsedAcceptEncoding,
};
use statsig_forward_proxy::utils::deserialization_helpers::parse_kv_pair;
use statsig_forward_proxy::utils::quality::is_at_or_below_zero;
use statsig_forward_proxy::utils::request_helper::{
    does_request_accept_deltas, does_request_supports_proto, query_param_is_true,
};
use statsig_forward_proxy::utils::response_compression::{
    compress_response_payload, content_encoding_header_value, preferred_response_compression,
};
use statsig_forward_proxy::utils::statsig_sdk_wrapper::StatsigUserFactory;
use std::io::Read;

#[test]
fn normalization_preserves_existing_encoder_names() {
    let encoded = CompressionEncoder::StatsigBrotli.to_string();
    assert_eq!(encoded, "statsig-br");
}

#[test]
fn filters_q_zero_from_acceptable_encodings() {
    let parsed = ParsedAcceptEncoding::from_raw_value("gzip;q=0, statsig-br;q=1, br");
    assert_eq!(
        parsed.acceptable_encodings(),
        vec![
            CompressionEncoder::StatsigBrotli,
            CompressionEncoder::Brotli
        ]
    );
}

#[test]
fn normalize_accept_encoding_canonicalizes_order_and_dedupes() {
    let value = ParsedAcceptEncoding::from_raw_value("br;q=1, gzip ; q=1, br").logger_tag();
    assert_eq!(value, Some("gzip+br".to_string()));
}

#[test]
fn normalize_accept_encoding_supports_statsig_aliases() {
    let value = ParsedAcceptEncoding::from_raw_value("statsig_br, gzip").logger_tag();
    assert_eq!(value, Some("statsig-br+gzip".to_string()));
}

#[test]
fn normalize_accept_encoding_respects_q_zero() {
    let value = ParsedAcceptEncoding::from_raw_value("gzip;q=0, br;q=1").logger_tag();
    assert_eq!(value, Some("br".to_string()));
}

#[test]
fn normalize_accept_encoding_returns_unknown_for_non_empty_unrecognized_input() {
    let value = ParsedAcceptEncoding::from_raw_value("foo").logger_tag();
    assert_eq!(value, Some("unknown".to_string()));
}

#[test]
fn normalize_accept_encoding_returns_none_tag_for_empty_input() {
    let value = ParsedAcceptEncoding::from_raw_value("").logger_tag();
    assert_eq!(value, Some("none".to_string()));
}

#[test]
fn normalize_accept_encoding_preserves_known_and_marks_unknown_tokens() {
    let value = ParsedAcceptEncoding::from_raw_value("gzip,foo,br").logger_tag();
    assert_eq!(value, Some("gzip+br+unknown".to_string()));
}

#[test]
fn normalize_accept_encoding_handles_multiple_header_instances() {
    // Several header instances are collected and joined.
    let values = vec!["gzip,br".to_string(), "statsig-br,plain_text".to_string()];

    let value = ParsedAcceptEncoding::from_header_values(&values).logger_tag();

    assert_eq!(value, Some("statsig-br+gzip+br+plain_text".to_string()));
}

#[test]
fn normalize_accept_encoding_supports_identity() {
    let value = ParsedAcceptEncoding::from_raw_value("identity").logger_tag();
    assert_eq!(value, Some("identity".to_string()));
}

#[test]
fn encodings_are_named_whatever_the_case_of_letters() {
    assert_eq!(
        CompressionEncoder::named("X-GZIP"),
        Some(CompressionEncoder::Gzip)
    );
    assert_eq!("br".parse::<CompressionEncoder>(), Ok(CompressionEncoder::Brotli));
    assert_eq!(CompressionEncoder::named("snappy"), None);
    assert_eq!(
        sort_and_dedup(&[
            CompressionEncoder::Brotli,
            CompressionEncoder::Gzip,
            CompressionEncoder::Brotli
        ]),
        vec![CompressionEncoder::Gzip, CompressionEncoder::Brotli]
    );
    assert!(
        encoding_priority(CompressionEncoder::StatsigBrotli)
            < encoding_priority(CompressionEncoder::Gzip)
    );
    assert_eq!(
        format_compression_encodings(&[CompressionEncoder::Gzip, CompressionEncoder::Brotli]),
        "gzip,br"
    );
}

#[test]
fn weights_are_read_like_numbers() {
    for zero in ["0", "0.0", "-1", "0e5", "-0", "-inf", "1e-400"] {
        assert!(is_at_or_below_zero(zero), "{zero}");
    }
    for other in ["1", "0.001", "1e-3", "inf", "nan", "abc", ""] {
        assert!(!is_at_or_below_zero(other), "{other}");
    }
}

#[test]
fn responses_are_compressed_as_they_are_accepted() {
    let accepted = [CompressionEncoder::Gzip, CompressionEncoder::PlainText];
    let encoding = preferred_response_compression(&accepted);
    assert_eq!(encoding, CompressionEncoder::Gzip);
    assert_eq!(content_encoding_header_value(encoding), Some("gzip"));
    let body = b"a body that is sent".to_vec();
    let compressed = compress_response_payload(&body, encoding).expect("compressed");
    assert_ne!(compressed, body);
    let mut read = Vec::new();
    flate2::read::GzDecoder::new(compressed.as_slice())
        .read_to_end(&mut read)
        .expect("gzip");
    assert_eq!(read, body);
    let brotli = compress_response_payload(&body, CompressionEncoder::StatsigBrotli)
        .expect("compressed");
    let mut read = Vec::new();
    brotli::Decompressor::new(brotli.as_slice(), 4096)
        .read_to_end(&mut read)
        .expect("brotli");
    assert_eq!(read, body);
    assert_eq!(
        compress_response_payload(&body, CompressionEncoder::PlainText),
        Some(body)
    );
}

#[test]
fn query_flags_are_read() {
    assert!(query_param_is_true("a=1&accept_deltas=true", "accept_deltas"));
    assert!(!query_param_is_true("accept_deltas=no", "accept_deltas"));
    assert!(does_request_accept_deltas(&Some("accept_deltas=true".to_string())));
    assert!(!does_request_accept_deltas(&None));
    assert!(does_request_supports_proto(Some(true), &None));
    assert!(!does_request_supports_proto(None, &None));
}

#[test]
fn pairs_are_split_at_their_first_colon() {
    assert_eq!(
        parse_kv_pair("pod:NAME:x"),
        Ok(("pod".to_string(), "NAME:x".to_string()))
    );
    assert_eq!(
        parse_kv_pair("pod"),
        Err("Invalid KEY:VALUE: no `:` found in `pod`".to_string())
    );
}

#[test]
fn the_user_has_the_ids_that_it_was_given() {
    let mut factory = StatsigUserFactory::with_hostname(&None);
    assert_eq!(
        factory.get(),
        &vec![("podID".to_string(), "no_hostname_provided".to_string())]
    );
    factory.set(
        &vec![
            ("a".to_string(), "A".to_string()),
            ("b".to_string(), "B".to_string()),
        ],
        &vec![Some("1".to_string()), None],
    );
    assert_eq!(
        factory.get(),
        &vec![
            ("a".to_string(), "1".to_string()),
            ("b".to_string(), "empty".to_string())
        ]
    );
}

#[test]
fn several_keys_of_one_text_are_cut() {
    assert_eq!(
        redact_sdk_keys("client-a1 client-abcdefghijklmnopqrstuvwxyz"),
        "client-a1 client-abcdefghijklm***"
    );
}
