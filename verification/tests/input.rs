use golink::input::{join_chars, parse_input, parse_path, split_chars, ParsedInput};
use golink::GolinkError;

fn chars(s: &str) -> Vec<char> {
    s.chars().collect()
}

fn parsed(short: &str, remainder: &str, is_metadata_request: bool) -> ParsedInput {
    ParsedInput {
        short: short.to_string(),
        remainder: remainder.to_string(),
        is_metadata_request,
    }
}

#[test]
fn split_gives_one_piece_more_than_separators() {
    assert_eq!(split_chars(&chars(""), '/'), vec![chars("")]);
    assert_eq!(split_chars(&chars("abc"), '/'), vec![chars("abc")]);
    assert_eq!(
        split_chars(&chars("a//b/"), '/'),
        vec![chars("a"), chars(""), chars("b"), chars("")]
    );
}

#[test]
fn join_puts_the_separator_between_pieces() {
    let parts = vec![chars("a"), chars(""), chars("b"), chars("cd")];
    assert_eq!(join_chars(&parts, 0, '/'), chars("a//b/cd"));
    assert_eq!(join_chars(&parts, 1, '/'), chars("/b/cd"));
    assert_eq!(join_chars(&parts, 3, '/'), chars("cd"));
    assert_eq!(join_chars(&parts, 4, '/'), chars(""));
}

#[test]
fn join_undoes_split() {
    let text = chars("/x/yy//z/");
    assert_eq!(join_chars(&split_chars(&text, '/'), 0, '/'), text);
}

#[test]
fn path_with_one_segment() {
    assert_eq!(parse_path("/test"), Ok(parsed("test", "", false)));
}

#[test]
fn path_with_more_segments_keeps_them_as_written() {
    assert_eq!(
        parse_path("/Te-st/A-b/c%20d/"),
        Ok(parsed("test", "A-b/c%20d/", false))
    );
}

#[test]
fn path_with_trailing_slash_has_no_remainder() {
    assert_eq!(parse_path("/prs/"), Ok(parsed("prs", "", false)));
}

#[test]
fn path_ending_in_plus_asks_for_metadata() {
    assert_eq!(parse_path("/tEs-t+"), Ok(parsed("test+", "", true)));
    assert_eq!(parse_path("/test/a+"), Ok(parsed("test", "a+", true)));
    assert_eq!(parse_path("/te+st"), Ok(parsed("te+st", "", false)));
}

#[test]
fn path_without_leading_slash_is_refused() {
    assert_eq!(parse_path("3gb"), Err(GolinkError::InvalidInput));
    assert_eq!(parse_path(""), Err(GolinkError::InvalidInput));
}

#[test]
fn path_without_first_segment_is_refused() {
    assert_eq!(parse_path("/"), Err(GolinkError::InvalidInput));
    assert_eq!(parse_path("//x"), Err(GolinkError::InvalidInput));
    assert_eq!(parse_path("/-%20-/x"), Err(GolinkError::InvalidInput));
}

#[test]
fn input_may_be_a_url_a_path_or_a_name() {
    let wanted = Ok(parsed("test", "a/b", false));
    assert_eq!(parse_input("https://jil.im/test/a/b?q=1#top"), wanted);
    assert_eq!(parse_input("/test/a/b"), wanted);
    assert_eq!(parse_input("test/a/b"), wanted);
}

#[test]
fn input_with_spaces_is_escaped_before_it_is_read() {
    assert_eq!(parse_input("/t est/x y"), Ok(parsed("test", "x%20y", false)));
}

#[test]
fn input_that_is_a_url_without_segments_is_refused() {
    assert_eq!(parse_input("a:3gb"), Err(GolinkError::InvalidInput));
    assert_eq!(parse_input("mailto:someone@example.com"), Err(GolinkError::InvalidInput));
}

#[test]
fn input_that_cannot_be_parsed_either_way_is_refused() {
    assert_eq!(parse_input("http://"), Err(GolinkError::InvalidInput));
}

#[test]
fn input_of_nothing_is_refused() {
    assert_eq!(parse_input(""), Err(GolinkError::InvalidInput));
    assert_eq!(parse_input("  \n"), Err(GolinkError::InvalidInput));
    assert_eq!(parse_input("/"), Err(GolinkError::InvalidInput));
}

#[test]
fn short_link_is_the_key_that_normalize_shortlink_gives() {
    for path in ["/My-Service/x", "/t%20est", "/a+b/c+", "/\u{c9}cole/"] {
        let short = parse_path(path).unwrap().short;
        assert_eq!(short, golink::normalize_shortlink(path));
    }
}

#[test]
fn short_link_is_in_normal_form() {
    let short = parse_path("/My - Ser%20VICE-/x").unwrap().short;
    assert_eq!(short, "myservice");
    assert!(!short.chars().any(|c| c.is_ascii_uppercase() || c == '-' || c == ' '));
}
