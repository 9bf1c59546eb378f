use plugin_codegen::ann::{AnnItem, AnnValue};
use plugin_codegen::descriptor::{DescriptorError, FieldName, parse_descriptor};
use plugin_codegen::emit::{emit_plugin_impl, generate_plugin_impl};

fn pair(key: &str, value: &str) -> AnnItem {
    AnnItem::Pair { key: key.to_string(), value: AnnValue::StrLit(value.to_string()) }
}

fn full_annotation() -> Vec<AnnItem> {
    vec![
        pair("id", "rustic-economy"),
        pair("name", "Rustic Economy"),
        pair("version", "0.1.0"),
        pair("api", "1.0.0"),
    ]
}

#[test]
fn round_trip_all_fields() {
    let d = parse_descriptor(&full_annotation()).unwrap();
    assert_eq!(d.id, "rustic-economy");
    assert_eq!(d.name, "Rustic Economy");
    assert_eq!(d.version, "0.1.0");
    assert_eq!(d.api_version, "1.0.0");
}

#[test]
fn key_order_is_irrelevant() {
    let items = vec![
        pair("api", "1.0.0"),
        pair("version", "0.1.0"),
        pair("id", "p"),
        pair("name", "P"),
    ];
    let d = parse_descriptor(&items).unwrap();
    assert_eq!(d.id, "p");
    assert_eq!(d.api_version, "1.0.0");
}

#[test]
fn duplicate_key_takes_last_occurrence() {
    let mut items = full_annotation();
    items.push(pair("id", "second"));
    let d = parse_descriptor(&items).unwrap();
    assert_eq!(d.id, "second");
}

#[test]
fn missing_id_is_detected() {
    let items = vec![pair("name", "P"), pair("version", "0.1.0"), pair("api", "1.0.0")];
    match parse_descriptor(&items) {
        Err(DescriptorError::MissingField { field }) => assert_eq!(field, FieldName::Id),
        r => panic!("expected MissingField(Id), got {:?}", r),
    }
}

#[test]
fn missing_name_is_detected() {
    let items = vec![pair("id", "p"), pair("version", "0.1.0"), pair("api", "1.0.0")];
    match parse_descriptor(&items) {
        Err(DescriptorError::MissingField { field }) => assert_eq!(field, FieldName::Name),
        r => panic!("expected MissingField(Name), got {:?}", r),
    }
}

#[test]
fn missing_version_is_detected() {
    let items = vec![pair("id", "p"), pair("name", "P"), pair("api", "1.0.0")];
    match parse_descriptor(&items) {
        Err(DescriptorError::MissingField { field }) => assert_eq!(field, FieldName::Version),
        r => panic!("expected MissingField(Version), got {:?}", r),
    }
}

#[test]
fn missing_api_is_detected() {
    let items = vec![pair("id", "p"), pair("name", "P"), pair("version", "0.1.0")];
    match parse_descriptor(&items) {
        Err(DescriptorError::MissingField { field }) => assert_eq!(field, FieldName::Api),
        r => panic!("expected MissingField(Api), got {:?}", r),
    }
}

#[test]
fn empty_annotation_misses_id_first() {
    let items: Vec<AnnItem> = vec![];
    match parse_descriptor(&items) {
        Err(DescriptorError::MissingField { field }) => assert_eq!(field, FieldName::Id),
        r => panic!("expected MissingField(Id), got {:?}", r),
    }
}

#[test]
fn unknown_key_is_rejected() {
    let mut items = full_annotation();
    items.push(pair("foo", "bar"));
    match parse_descriptor(&items) {
        Err(DescriptorError::UnknownKey { index, key }) => {
            assert_eq!(index, 4);
            assert_eq!(key, "foo");
        },
        r => panic!("expected UnknownKey, got {:?}", r),
    }
}

#[test]
fn non_literal_value_is_rejected_naming_its_key() {
    let items = vec![
        pair("id", "p"),
        AnnItem::Pair { key: "version".to_string(), value: AnnValue::NotStrLit },
        pair("name", "P"),
    ];
    match parse_descriptor(&items) {
        Err(DescriptorError::NonStringValue { index, key }) => {
            assert_eq!(index, 1);
            assert_eq!(key, "version");
        },
        r => panic!("expected NonStringValue, got {:?}", r),
    }
}

#[test]
fn malformed_items_are_rejected() {
    let items = vec![AnnItem::NotPair];
    match parse_descriptor(&items) {
        Err(DescriptorError::MalformedKey { index }) => assert_eq!(index, 0),
        r => panic!("expected MalformedKey, got {:?}", r),
    }
    let items = vec![pair("id", "p"), AnnItem::BadKey];
    match parse_descriptor(&items) {
        Err(DescriptorError::MalformedKey { index }) => assert_eq!(index, 1),
        r => panic!("expected MalformedKey, got {:?}", r),
    }
}

#[test]
fn first_offending_item_decides_the_diagnostic() {
    let items = vec![pair("foo", "bar"), AnnItem::NotPair];
    match parse_descriptor(&items) {
        Err(DescriptorError::UnknownKey { index, key }) => {
            assert_eq!(index, 0);
            assert_eq!(key, "foo");
        },
        r => panic!("expected UnknownKey at 0, got {:?}", r),
    }
}

#[test]
fn emitted_impl_embeds_the_literals() {
    let d = parse_descriptor(&full_annotation()).unwrap();
    let src = emit_plugin_impl(&d, "RusticEconomy");
    let expected = "impl dragonfly_plugin::Plugin for RusticEconomy {\n    fn get_info(&self) -> dragonfly_plugin::PluginInfo<'static> {\n        dragonfly_plugin::PluginInfo::<'static> {\n            id: \"rustic-economy\",\n            name: \"Rustic Economy\",\n            version: \"0.1.0\",\n            api_version: \"1.0.0\"\n        }\n    }\n    fn get_id(&self) -> &'static str {\n        \"rustic-economy\"\n    }\n    fn get_name(&self) -> &'static str {\n        \"Rustic Economy\"\n    }\n    fn get_version(&self) -> &'static str {\n        \"0.1.0\"\n    }\n    fn get_api_version(&self) -> &'static str {\n        \"1.0.0\"\n    }\n}\n";
    assert_eq!(src, expected);
}

#[test]
fn emitted_literals_are_escaped() {
    let items = vec![
        pair("id", "a\"b"),
        pair("name", "c\\d"),
        pair("version", "e\nf"),
        pair("api", "g\th"),
    ];
    let d = parse_descriptor(&items).unwrap();
    let src = emit_plugin_impl(&d, "P");
    assert!(src.contains("id: \"a\\\"b\""));
    assert!(src.contains("name: \"c\\\\d\""));
    assert!(src.contains("version: \"e\\nf\""));
    assert!(src.contains("api_version: \"g\\th\""));
}

#[test]
fn generate_plugin_impl_combines_parse_and_emit() {
    let src = generate_plugin_impl(&full_annotation(), "RusticEconomy").unwrap();
    assert!(src.starts_with("impl dragonfly_plugin::Plugin for RusticEconomy {"));
    let mut items = full_annotation();
    items.remove(3);
    match generate_plugin_impl(&items, "RusticEconomy") {
        Err(DescriptorError::MissingField { field }) => assert_eq!(field, FieldName::Api),
        r => panic!("expected MissingField(Api), got {:?}", r),
    }
}

#[test]
fn diagnostic_messages_name_the_offender() {
    let e = DescriptorError::UnknownKey { index: 0, key: "foo".to_string() };
    assert_eq!(e.message(), "Unknown key 'foo'. Expected 'id', 'name', 'version', or 'api'");
    let e = DescriptorError::NonStringValue { index: 2, key: "id".to_string() };
    assert_eq!(e.message(), "Expected a string literal for key 'id'");
    let e = DescriptorError::MissingField { field: FieldName::Version };
    assert_eq!(e.message(), "Missing required field 'version'");
    let e = DescriptorError::MalformedKey { index: 1 };
    assert_eq!(e.message(), "Expected `key = \"value\"` format with an identifier key (e.g., 'id')");
}
