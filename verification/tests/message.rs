use correlation::error::Error;
use correlation::message::MessageBuilder;

#[test]
fn builder_assembles_every_field() {
    let message = MessageBuilder::new("uuid-1", "some text")
        .name(Some("a name".to_string()))
        .pair("key1", "value1")
        .pair("key2", "value2")
        .build();
    assert_eq!(message.uuid, "uuid-1");
    assert_eq!(message.name.as_deref(), Some("a name"));
    assert_eq!(message.message, "some text");
    assert_eq!(
        message.values,
        vec![
            ("key1".to_string(), "value1".to_string()),
            ("key2".to_string(), "value2".to_string()),
        ]
    );
}

#[test]
fn pair_replaces_the_value_of_an_existing_key_in_place() {
    let message = MessageBuilder::new("uuid-1", "text")
        .pair("key1", "first")
        .pair("key2", "kept")
        .pair("key1", "second")
        .build();
    assert_eq!(
        message.values,
        vec![
            ("key1".to_string(), "second".to_string()),
            ("key2".to_string(), "kept".to_string()),
        ]
    );
}

#[test]
fn values_replaces_the_whole_pair_list() {
    let message = MessageBuilder::new("uuid-1", "text")
        .pair("dropped", "dropped")
        .values(vec![("kept".to_string(), "value".to_string())])
        .build();
    assert_eq!(message.values, vec![("kept".to_string(), "value".to_string())]);
}

#[test]
fn error_constructors_build_their_variants() {
    match Error::missing_required_option("pattern_file".to_string()) {
        Error::MissingRequiredOption(option) => assert_eq!(option, "pattern_file"),
        _ => panic!("wrong variant"),
    }
    match Error::invalid_value("level".to_string(), "11".to_string(), "0..10".to_string()) {
        Error::InvalidValue(option, value, expected) => {
            assert_eq!(option, "level");
            assert_eq!(value, "11");
            assert_eq!(expected, "0..10");
        },
        _ => panic!("wrong variant"),
    }
    match Error::unknown_option("colour".to_string()) {
        Error::UnknownOption(option) => assert_eq!(option, "colour"),
        _ => panic!("wrong variant"),
    }
    match Error::verbatim_error("it broke".to_string()) {
        Error::Verbatim(text) => assert_eq!(text, "it broke"),
        _ => panic!("wrong variant"),
    }
}
