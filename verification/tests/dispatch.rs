use golink::input::ParsedInput;
use golink::resolve::dispatch;
use golink::{resolve, resolve_fetched, GolinkError, GolinkResolution};

fn never(_key: &str) -> Option<String> {
    panic!("the lookup was asked")
}

fn nothing(_key: &str) -> Option<String> {
    None
}

fn echo(key: &str) -> Option<String> {
    Some(format!("https://example.com/{}", key))
}

fn parsed(short: &str, remainder: &str, is_metadata_request: bool) -> ParsedInput {
    ParsedInput {
        short: short.to_string(),
        remainder: remainder.to_string(),
        is_metadata_request,
    }
}

#[test]
fn metadata_request_is_answered_without_lookup() {
    assert_eq!(
        resolve("/test+", &never),
        Ok(GolinkResolution::MetadataRequest("test".to_string()))
    );
    assert_eq!(
        resolve("https://go/Te-st/more+", &never),
        Ok(GolinkResolution::MetadataRequest("test".to_string()))
    );
}

#[test]
fn metadata_request_loses_every_trailing_plus() {
    assert_eq!(
        resolve("/a+b++", &never),
        Ok(GolinkResolution::MetadataRequest("a+b".to_string()))
    );
    assert_eq!(
        resolve("/+", &never),
        Ok(GolinkResolution::MetadataRequest("".to_string()))
    );
}

#[test]
fn malformed_input_is_refused_without_lookup() {
    assert_eq!(resolve("", &never), Err(GolinkError::InvalidInput));
    assert_eq!(resolve("a:3gb", &never), Err(GolinkError::InvalidInput));
    assert_eq!(resolve("/-", &never), Err(GolinkError::InvalidInput));
}

#[test]
fn missing_entry_is_not_found() {
    assert_eq!(
        resolve("/No-Such/x", &nothing),
        Err(GolinkError::NotFound("nosuch".to_string()))
    );
}

#[test]
fn lookup_is_asked_for_the_normal_form() {
    assert_eq!(
        resolve("/My-Service", &echo),
        Ok(GolinkResolution::RedirectRequest(
            "https://example.com/myservice".to_string(),
            "myservice".to_string()
        ))
    );
}

#[test]
fn broken_template_is_a_template_error() {
    let broken = |_key: &str| Some("{{ endif }}".to_string());
    match resolve("/x", &broken) {
        Err(GolinkError::TemplateError(message)) => {
            assert!(message.starts_with("Failed to parse the template"))
        }
        other => panic!("unexpected outcome: {:?}", other),
    }
}

#[test]
fn dispatch_of_metadata_request_ignores_what_is_stored() {
    let wanted = Ok(GolinkResolution::MetadataRequest("test".to_string()));
    assert_eq!(dispatch(parsed("test+", "", true), None), wanted);
    assert_eq!(
        dispatch(parsed("test+", "", true), Some("http://example.com/".to_string())),
        wanted
    );
}

#[test]
fn dispatch_without_stored_value_is_not_found() {
    assert_eq!(
        dispatch(parsed("test", "a", false), None),
        Err(GolinkError::NotFound("test".to_string()))
    );
}

#[test]
fn dispatch_with_stored_value_redirects() {
    assert_eq!(
        dispatch(parsed("test", "a/b", false), Some("http://example.com/".to_string())),
        Ok(GolinkResolution::RedirectRequest(
            "http://example.com/a/b".to_string(),
            "test".to_string()
        ))
    );
}

#[test]
fn fetched_value_resolves_as_a_lookup_would() {
    assert_eq!(
        resolve_fetched("/test/a", Some("http://example.com/".to_string())),
        Some(Ok(GolinkResolution::RedirectRequest(
            "http://example.com/a".to_string(),
            "test".to_string()
        )))
    );
    assert_eq!(
        resolve_fetched("/test", None),
        Some(Err(GolinkError::NotFound("test".to_string())))
    );
    assert_eq!(
        resolve_fetched("/test+", None),
        Some(Ok(GolinkResolution::MetadataRequest("test".to_string())))
    );
    assert_eq!(resolve_fetched("", None), Some(Err(GolinkError::InvalidInput)));
}

#[test]
fn fetched_value_that_stops_the_engine_is_not_resolved() {
    assert_eq!(resolve_fetched("/test", Some("{#}".to_string())), None);
    assert_eq!(
        resolve_fetched("/test+", Some("{#}".to_string())),
        Some(Ok(GolinkResolution::MetadataRequest("test".to_string())))
    );
}
