use openrouter_proxy::ProxyError;
use openrouter_proxy::strict::parameters_url;
use openrouter_proxy::strict::strict_endpoint_url;
use openrouter_proxy::strict::validate_id;

#[test]
fn generation_id_must_be_non_empty() {
    assert!(!validate_id(""));
    assert!(validate_id("g"));
    assert!(validate_id("gen-123"));
}

#[test]
fn fixed_endpoints_share_the_api_base() {
    assert_eq!(strict_endpoint_url("models"), "https://openrouter.ai/api/v1/models");
    assert_eq!(strict_endpoint_url("providers"), "https://openrouter.ai/api/v1/providers");
    assert_eq!(strict_endpoint_url("generation"), "https://openrouter.ai/api/v1/generation");
}

#[test]
fn schema_drift_maps_to_500() {
    let e = ProxyError::SchemaValidation(String::from("data.usage: missing field"));
    assert_eq!(e.status(), 500);
    assert_eq!(
        e.envelope(),
        "{\"error\":{\"code\":500,\"message\":\"data.usage: missing field\"}}"
    );
}

#[test]
fn parameters_endpoint_interpolates_author_and_slug() {
    assert_eq!(
        parameters_url("openai", "gpt-4o"),
        "https://openrouter.ai/api/v1/parameters/openai/gpt-4o"
    );
}
