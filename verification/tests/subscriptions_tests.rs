use plugin_codegen::ann::{AttrAnn, DeclKind, Declaration, EventToken};
use plugin_codegen::emit::emit_subscriptions_impl;
use plugin_codegen::handler::{HandlerError, handle_batch, handler_derive};
use plugin_codegen::subscriptions::parse_subscriptions;

fn ident(name: &str) -> EventToken {
    EventToken::Ident(name.to_string())
}

fn subscribed_struct(name: &str, events: &[&str]) -> Declaration {
    Declaration {
        name: name.to_string(),
        kind: DeclKind::Structure,
        attrs: vec![AttrAnn {
            path: "subscriptions".to_string(),
            tokens: events.iter().map(|e| ident(e)).collect(),
        }],
    }
}

#[test]
fn order_and_multiplicity_are_preserved() {
    let tokens = vec![ident("Chat"), ident("PlayerJoin"), ident("Chat")];
    let names = parse_subscriptions(&tokens).unwrap();
    assert_eq!(names, vec!["Chat", "PlayerJoin", "Chat"]);
}

#[test]
fn empty_list_yields_empty_sequence() {
    let tokens: Vec<EventToken> = vec![];
    let names = parse_subscriptions(&tokens).unwrap();
    assert!(names.is_empty());
}

#[test]
fn malformed_token_is_rejected_with_its_position() {
    let tokens = vec![ident("Chat"), EventToken::NotIdent, ident("PlayerJoin")];
    let e = parse_subscriptions(&tokens).unwrap_err();
    assert_eq!(e.index, 1);
}

#[test]
fn emitted_subscriptions_impl_lists_events_in_order() {
    let names = vec!["Chat".to_string(), "PlayerJoin".to_string(), "Chat".to_string()];
    let src = emit_subscriptions_impl(&names, "RusticEconomy");
    let expected = "impl dragonfly_plugin::PluginSubscriptions for RusticEconomy {\n    fn get_subscriptions(&self) -> Vec<types::EventType> {\n        vec![types::EventType::Chat, types::EventType::PlayerJoin, types::EventType::Chat]\n    }\n}\n";
    assert_eq!(src, expected);
}

#[test]
fn emitted_subscriptions_impl_for_no_events() {
    let src = emit_subscriptions_impl(&Vec::new(), "Quiet");
    let expected = "impl dragonfly_plugin::PluginSubscriptions for Quiet {\n    fn get_subscriptions(&self) -> Vec<types::EventType> {\n        vec![]\n    }\n}\n";
    assert_eq!(src, expected);
}

#[test]
fn handler_emits_for_an_annotated_structure() {
    let decl = subscribed_struct("RusticEconomy", &["Chat", "PlayerJoin"]);
    let src = handler_derive(&decl).unwrap();
    assert!(src.starts_with("impl dragonfly_plugin::PluginSubscriptions for RusticEconomy {"));
    assert!(src.contains("vec![types::EventType::Chat, types::EventType::PlayerJoin]"));
}

#[test]
fn non_structure_declarations_are_rejected() {
    let mut decl = subscribed_struct("NotAStruct", &["Chat"]);
    decl.kind = DeclKind::Enumeration;
    assert_eq!(handler_derive(&decl).unwrap_err(), HandlerError::UnsupportedDeclarationKind);
    decl.kind = DeclKind::Union;
    assert_eq!(handler_derive(&decl).unwrap_err(), HandlerError::UnsupportedDeclarationKind);
}

#[test]
fn missing_annotation_is_rejected() {
    let decl = Declaration {
        name: "Bare".to_string(),
        kind: DeclKind::Structure,
        attrs: vec![AttrAnn { path: "derive".to_string(), tokens: vec![] }],
    };
    assert_eq!(handler_derive(&decl).unwrap_err(), HandlerError::MissingSubscriptionsAnnotation);
}

#[test]
fn malformed_event_token_is_rejected_through_the_handler() {
    let mut decl = subscribed_struct("P", &["Chat"]);
    decl.attrs[0].tokens.push(EventToken::NotIdent);
    assert_eq!(
        handler_derive(&decl).unwrap_err(),
        HandlerError::MalformedEventToken { index: 1 },
    );
}

#[test]
fn first_subscriptions_attribute_wins() {
    let mut decl = subscribed_struct("P", &["Chat"]);
    decl.attrs.push(AttrAnn {
        path: "subscriptions".to_string(),
        tokens: vec![ident("PlayerJoin")],
    });
    let src = handler_derive(&decl).unwrap();
    assert!(src.contains("vec![types::EventType::Chat]"));
    assert!(!src.contains("PlayerJoin"));
}

#[test]
fn failure_in_one_declaration_leaves_its_neighbours_alone() {
    let mut bad = subscribed_struct("Broken", &["Chat"]);
    bad.kind = DeclKind::Enumeration;
    let good = subscribed_struct("Fine", &["PlayerJoin"]);
    let batch = vec![bad, good];
    let results = handle_batch(&batch);
    assert_eq!(results.len(), 2);
    assert_eq!(results[0], Err(HandlerError::UnsupportedDeclarationKind));
    let src = results[1].as_ref().unwrap();
    assert!(src.contains("impl dragonfly_plugin::PluginSubscriptions for Fine"));
    assert!(src.contains("vec![types::EventType::PlayerJoin]"));
}

#[test]
fn handler_diagnostics_state_the_remedy() {
    assert_eq!(
        HandlerError::MissingSubscriptionsAnnotation.message(),
        "Missing #[subscriptions(...)] attribute. Please list the events to subscribe to, \
         e.g., #[subscriptions(Chat, PlayerJoin)]",
    );
    assert_eq!(
        HandlerError::UnsupportedDeclarationKind.message(),
        "The #[derive(Handler)] macro can only be used on a `struct`.",
    );
}
