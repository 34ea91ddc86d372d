use golink::expand::{
    append, append_opaque, can_append, can_expand, expand, join_path, ExpandEnvironment,
};
use golink::template::is_renderable;
use golink::GolinkError;

fn environment(path: &str) -> ExpandEnvironment {
    ExpandEnvironment { path: path.to_string() }
}

#[test]
fn joined_path_has_one_slash_between() {
    assert_eq!(join_path("/", "a/b/c"), "/a/b/c");
    assert_eq!(join_path("/test.html", "a"), "/test.html/a");
    assert_eq!(join_path("/x///", "y"), "/x/y");
    assert_eq!(join_path("", "y"), "/y");
    assert_eq!(join_path("/x", ""), "/x/");
}

#[test]
fn opaque_value_gets_remainder_after_a_slash() {
    assert_eq!(append_opaque("efgh", "a/b/c"), "efgh/a/b/c");
    assert_eq!(append_opaque("efgh/", "a"), "efgh//a");
}

#[test]
fn opaque_value_stays_without_remainder() {
    assert_eq!(append_opaque("efgh", ""), "efgh");
    assert_eq!(append_opaque("", ""), "");
}

#[test]
fn append_to_url_extends_its_path() {
    assert_eq!(append("http://example.com/", "a/b/c"), "http://example.com/a/b/c");
    assert_eq!(append("http://example.com/docs/", "a"), "http://example.com/docs/a");
}

#[test]
fn append_to_url_keeps_query_and_fragment() {
    assert_eq!(
        append("http://example.com/test.html?a=b&c[]=d#top", "x/y"),
        "http://example.com/test.html/x/y?a=b&c[]=d#top"
    );
}

#[test]
fn append_to_url_escapes_the_new_path() {
    assert_eq!(append("http://example.com/q", "x y"), "http://example.com/q/x%20y");
}

#[test]
fn append_nothing_to_url_writes_it_anew() {
    assert_eq!(append("http://example.com", ""), "http://example.com/");
    assert_eq!(append("HTTP://EXAMPLE.com/a b", ""), "http://example.com/a%20b");
}

#[test]
fn append_to_what_is_no_url_concatenates() {
    assert_eq!(append("efgh", "a/b/c"), "efgh/a/b/c");
    assert_eq!(append("efgh", ""), "efgh");
}

#[test]
fn append_is_possible_for_ordinary_values() {
    assert!(can_append("http://example.com/", "a/b/c"));
    assert!(can_append("http://example.com/", ""));
    assert!(can_append("efgh", "a"));
}

#[test]
fn expand_renders_the_path_into_a_template() {
    let template = "https://example.com/{{ if path }}{ path }{{ else }}home{{ endif }}";
    assert_eq!(
        expand(template, environment("docs")),
        Ok("https://example.com/docs".to_string())
    );
    assert_eq!(
        expand(template, environment("")),
        Ok("https://example.com/home".to_string())
    );
}

#[test]
fn expand_gives_what_the_engine_writes_for_the_path() {
    assert_eq!(
        expand("https://example.com/?q={ path }", environment("a&b")),
        Ok("https://example.com/?q=a&amp;b".to_string())
    );
}

#[test]
fn expand_appends_where_nothing_was_rendered() {
    assert_eq!(
        expand("http://example.com/", environment("a/b")),
        Ok("http://example.com/a/b".to_string())
    );
    assert_eq!(expand("efgh", environment("")), Ok("efgh".to_string()));
}

#[test]
fn expand_reports_a_template_that_does_not_compile() {
    assert_eq!(
        expand("https://example.com/{{ if path }}", environment("x")),
        Err(GolinkError::TemplateError(
            "Failed to parse the template (line 1, column 23). Reason: Expected block-closing tag, but reached the end of input."
                .to_string()
        ))
    );
}

#[test]
fn expand_reports_a_template_that_does_not_render() {
    match expand("https://example.com/{ nothing }", environment("x")) {
        Err(GolinkError::TemplateError(message)) => {
            assert!(message.starts_with("Encountered rendering error"))
        }
        other => panic!("unexpected outcome: {:?}", other),
    }
}

#[test]
fn ordinary_values_are_renderable() {
    assert!(is_renderable("http://example.com/"));
    assert!(is_renderable("efgh"));
    assert!(is_renderable("{{ if not path }}none{{ else }}{ path }{{ endif }}"));
    assert!(is_renderable("{# a note #}x"));
    assert!(is_renderable("do not stop"));
    assert!(is_renderable(""));
}

#[test]
fn values_that_stop_the_engine_are_not_renderable() {
    assert!(!is_renderable("{#}"));
    assert!(!is_renderable("x{{ if not }}y{{ endif }}"));
    assert!(!is_renderable("x{{ if not - }}y{{ endif }}"));
    assert!(!is_renderable("{{ if not\u{e9} }}y{{ endif }}"));
    assert!(!is_renderable("C:\\"));
}

#[test]
fn negated_condition_renders() {
    let template = "{{ if not path }}none{{ else }}{ path }{{ endif }}";
    assert!(can_expand(template, "x"));
    assert_eq!(expand(template, environment("x")), Ok("x".to_string()));
    assert_eq!(expand(template, environment("")), Ok("none".to_string()));
}

#[test]
fn expansion_is_possible_for_ordinary_values() {
    assert!(can_expand("http://example.com/", "a/b"));
    assert!(can_expand("{{ if path }}", "a"));
    assert!(!can_expand("{#}", "a"));
}
