use actix_app_api::four_bytes::{signature_list_url, FOUR_BYTE_URL};
use actix_app_api::health::{health_response, HealthResponse};
use actix_app_api::logging::{resolve_filter, resolve_service_name, LogLayer, Logging, DEFAULT_FILTER_DIRECTIVE};
use actix_app_api::models::NewSignature;
use actix_app_api::token_list::{token_list_url, POLYGON_TOKEN_LIST_URL};

#[test]
fn test_new_signature() {
    NewSignature::new("0x123", "0x456", None);
    NewSignature::new("0x123", "0x456", Some("0x789"));
}

#[test]
fn new_signature_keeps_its_fields() {
    let s = NewSignature::new("0x123", "0x456", Some("0x789"));
    assert_eq!(s.bytes, "0x123");
    assert_eq!(s.signature, "0x456");
    assert_eq!(s.abi.as_deref(), Some("0x789"));
    assert_eq!(NewSignature::new("0x123", "0x456", None).abi, None);
}

#[test]
fn health_is_ok_with_version() {
    assert_eq!(
        health_response(),
        HealthResponse { status: "ok".to_string(), version: "0.1.0".to_string() }
    );
}

#[test]
fn logging_new_keeps_settings() {
    let l = Logging::new("debug".to_string(), "App".to_string(), true);
    assert_eq!(l.level, "debug");
    assert_eq!(l.srv_name, "App");
    assert!(l.with_jaeger);
}

#[test]
fn layer_plan_with_and_without_jaeger() {
    let with = Logging::new("debug".to_string(), "App".to_string(), true);
    assert_eq!(with.layer_plan(), vec![LogLayer::StderrFmt, LogLayer::Jaeger, LogLayer::StderrFmt]);
    let without = Logging::new("info".to_string(), "App".to_string(), false);
    assert_eq!(without.layer_plan(), vec![LogLayer::StderrFmt, LogLayer::StderrFmt]);
}

#[test]
fn service_name_prefers_setting() {
    assert_eq!(resolve_service_name(Some("svc".to_string()), "App".to_string()), "svc");
    assert_eq!(resolve_service_name(None, "App".to_string()), "App");
}

#[test]
fn urls_default_to_public_lists() {
    assert_eq!(signature_list_url(None), FOUR_BYTE_URL);
    assert_eq!(signature_list_url(Some("http://x/".to_string())), "http://x/");
    assert_eq!(token_list_url(None), POLYGON_TOKEN_LIST_URL);
    assert_eq!(token_list_url(Some("http://y/".to_string())), "http://y/");
    assert_eq!(FOUR_BYTE_URL, "https://www.4byte.directory/api/v1/signatures/");
}

#[test]
fn filter_falls_back_to_debug() {
    assert_eq!(resolve_filter(Some("info".to_string()), DEFAULT_FILTER_DIRECTIVE.to_string()), "info");
    assert_eq!(resolve_filter(None, DEFAULT_FILTER_DIRECTIVE.to_string()), "debug");
}

#[test]
fn filter_directive_is_the_level() {
    let l = Logging::new("warn".to_string(), "App".to_string(), false);
    assert_eq!(l.filter_directive(), "warn");
}
