use golink::normalize::{normalize_segment, normalize_shortlink};

#[test]
fn shortlink_ignores_case_hyphens_and_spaces() {
    assert_eq!(normalize_shortlink("My-Service"), "myservice");
    assert_eq!(normalize_shortlink("myservice"), "myservice");
    assert_eq!(normalize_shortlink("MY SERVICE"), "myservice");
}

#[test]
fn shortlink_takes_the_first_segment_only() {
    assert_eq!(normalize_shortlink("foo/bar"), "foo");
    assert_eq!(normalize_shortlink("/foo/bar/baz"), "foo");
}

#[test]
fn shortlink_skips_every_leading_slash() {
    assert_eq!(normalize_shortlink("//Foo-Bar/x"), "foobar");
    assert_eq!(normalize_shortlink("///"), "");
    assert_eq!(normalize_shortlink(""), "");
}

#[test]
fn segment_of_nothing_is_nothing() {
    assert_eq!(normalize_segment(""), "");
    assert_eq!(normalize_segment("- -"), "");
}

#[test]
fn segment_loses_escaped_spaces() {
    assert_eq!(normalize_segment("a%20b"), "ab");
    assert_eq!(normalize_segment("%20%20x%20"), "x");
    assert_eq!(normalize_segment("%2"), "%2");
    assert_eq!(normalize_segment("%21"), "%21");
}

#[test]
fn segment_keeps_other_characters() {
    assert_eq!(normalize_segment("Prs+"), "prs+");
    assert_eq!(normalize_segment("a_b.C"), "a_b.c");
    assert_eq!(normalize_segment("\u{c9}t\u{e9}"), "\u{c9}t\u{e9}");
}

#[test]
fn removals_happen_in_order() {
    // hyphens go first, so an escaped space may only then come together
    assert_eq!(normalize_segment("%-20"), "");
    // what the removal of an escaped space leaves is not searched again
    assert_eq!(normalize_segment("%%2020"), "%20");
    // spaces go last
    assert_eq!(normalize_segment("% 20"), "%20");
}

#[test]
fn normal_form_is_not_always_stable() {
    let once = normalize_segment("% 20");
    assert_eq!(once, "%20");
    assert_eq!(normalize_segment(&once), "");
}

#[test]
fn spaces_inside_an_escaped_space_are_not_ignored() {
    // "% 20" and "%20" differ only in a space, yet not in their normal forms
    assert_eq!(normalize_segment("% 20"), "%20");
    assert_eq!(normalize_segment("%20"), "");
    // elsewhere a space changes nothing
    assert_eq!(normalize_segment("a % b"), normalize_segment("a%b"));
}
