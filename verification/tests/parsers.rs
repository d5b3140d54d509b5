use correlation::parsers::{GreedyParser, ParserBase};

#[test]
fn test_given_greedy_parser_when_the_end_string_is_not_found_in_the_value_then_the_parser_doesnt_match() {
    let parser = GreedyParser::from_str("name", "foo");
    assert_eq!(parser.parse("qux baz bar").is_none(), true);
}

#[test]
fn test_given_greedy_parser_when_the_end_string_is_found_in_the_value_then_the_parser_matches() {
    let parser = GreedyParser::from_str("name", "foo");
    let res = parser.parse("qux foo bar").unwrap();
    assert_eq!(res.parser_name().as_deref(), Some("name"));
    assert_eq!(res.value(), "qux ");
}

#[test]
fn greedy_parser_without_end_string_consumes_everything() {
    let parser = GreedyParser::new("all".to_string());
    let res = parser.parse("anything at all").unwrap();
    assert_eq!(res.value(), "anything at all");
    assert_eq!(res.parser_name().as_deref(), Some("all"));
}

#[test]
fn greedy_parser_stops_at_the_first_occurrence() {
    let parser = GreedyParser::from_str("name", "-");
    let res = parser.parse("a-b-c").unwrap();
    assert_eq!(res.value(), "a");
}

#[test]
fn greedy_parser_matches_at_the_very_start() {
    let parser = GreedyParser::from_str("name", "stop");
    let res = parser.parse("stop right there").unwrap();
    assert_eq!(res.value(), "");
}

#[test]
fn parser_base_keeps_its_name() {
    let mut base = ParserBase::new();
    assert_eq!(base.name(), None);
    base.set_name("renamed".to_string());
    assert_eq!(base.name(), Some("renamed"));
    let named = ParserBase::with_name("first".to_string());
    assert_eq!(named.name(), Some("first"));
}
