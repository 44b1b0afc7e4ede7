use spawning_drunagor::html::parse_base_href;

#[test]
fn the_base_address_is_read_from_the_base_element() {
    assert_eq!(parse_base_href("<html><head><base href=\"/app/\" /></head></html>"), "/app/");
    assert_eq!(parse_base_href("<base href=\"/\" />"), "/");
    assert_eq!(parse_base_href("<base href=\"/a/b/\" /><base href=\"/c/\" />"), "/a/b/");
    assert_eq!(parse_base_href("<base href=\"https://example.org/würfel/\" />"), "https://example.org/würfel/");
}

#[test]
fn a_page_without_a_usable_base_element_has_no_base_address() {
    assert_eq!(parse_base_href(""), "");
    assert_eq!(parse_base_href("<html><head></head></html>"), "");
    assert_eq!(parse_base_href("<base href=\"/app\" />"), "");
    assert_eq!(parse_base_href("<base href=\"\" />"), "");
    assert_eq!(parse_base_href("<base href=\"/app/\">"), "");
    assert_eq!(parse_base_href("<base href=\"/a&b/\" />"), "");
    assert_eq!(parse_base_href("<base href=\"/a'b/\" />"), "");
    assert_eq!(parse_base_href("<base href=\"/a\"b/\" />"), "");
    assert_eq!(parse_base_href("<base href=\"/app/"), "");
    assert_eq!(parse_base_href("<base href='/app/' />"), "");
}
