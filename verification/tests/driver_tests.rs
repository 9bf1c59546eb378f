use plugin_codegen::driver::{generate_plugin_tokens, handler_derive_tokens};

fn tokens(src: &str) -> proc_macro2::TokenStream {
    src.parse().expect("test input should lex")
}

fn derive_input(src: &str) -> syn::DeriveInput {
    syn::parse_str(src).expect("test input should parse")
}

#[test]
fn handler_tokens_for_a_valid_structure() {
    let out = handler_derive_tokens(tokens(
        "#[subscriptions(Chat, PlayerJoin, Chat)] struct RusticEconomy;",
    ));
    let text = out.to_string();
    assert!(!text.contains("compile_error"));
    assert!(text.contains("PluginSubscriptions"));
    assert!(text.contains("RusticEconomy"));
    assert_eq!(text.matches("Chat").count(), 2);
    assert!(text.contains("PlayerJoin"));
}

#[test]
fn handler_tokens_preserve_event_order() {
    let out = handler_derive_tokens(tokens("#[subscriptions(PlayerJoin, Chat)] struct P;"));
    let text = out.to_string();
    let join_at = text.find("PlayerJoin").unwrap();
    let chat_at = text.rfind("Chat").unwrap();
    assert!(join_at < chat_at);
}

#[test]
fn handler_tokens_reject_an_enumeration() {
    let out = handler_derive_tokens(tokens("#[subscriptions(Chat)] enum E { A }"));
    let text = out.to_string();
    assert!(text.contains("compile_error"));
    assert!(text.contains("struct"));
}

#[test]
fn handler_tokens_reject_a_missing_annotation() {
    let out = handler_derive_tokens(tokens("struct Bare;"));
    let text = out.to_string();
    assert!(text.contains("compile_error"));
    assert!(text.contains("subscriptions"));
}

#[test]
fn handler_tokens_reject_a_malformed_event_list() {
    let out = handler_derive_tokens(tokens("#[subscriptions(Chat, 42)] struct P;"));
    assert!(out.to_string().contains("compile_error"));
}

#[test]
fn handler_tokens_accept_an_empty_event_list() {
    let out = handler_derive_tokens(tokens("#[subscriptions()] struct Quiet;"));
    let text = out.to_string();
    assert!(!text.contains("compile_error"));
    assert!(text.contains("PluginSubscriptions"));
}

#[test]
fn plugin_tokens_for_a_valid_annotation() {
    let ast = derive_input(
        "#[plugin(id = \"rustic-economy\", name = \"Rustic Economy\", version = \"0.1.0\", \
         api = \"1.0.0\")] struct RusticEconomy;",
    );
    let name = ast.ident.to_string();
    let out = generate_plugin_tokens(&ast.attrs[0], &name);
    let text = out.to_string();
    assert!(!text.contains("compile_error"));
    assert!(text.contains("rustic-economy"));
    assert!(text.contains("get_api_version"));
}

#[test]
fn plugin_tokens_report_a_missing_field() {
    let ast = derive_input("#[plugin(id = \"p\", name = \"P\", version = \"0.1.0\")] struct P;");
    let name = ast.ident.to_string();
    let out = generate_plugin_tokens(&ast.attrs[0], &name);
    let text = out.to_string();
    assert!(text.contains("compile_error"));
    assert!(text.contains("api"));
}

#[test]
fn plugin_tokens_report_a_non_string_value() {
    let ast = derive_input("#[plugin(id = 1)] struct P;");
    let name = ast.ident.to_string();
    let out = generate_plugin_tokens(&ast.attrs[0], &name);
    let text = out.to_string();
    assert!(text.contains("compile_error"));
    assert!(text.contains("string literal"));
    assert!(text.contains("'id'"));
}

#[test]
fn plugin_tokens_report_an_unknown_key() {
    let ast = derive_input("#[plugin(foo = \"bar\")] struct P;");
    let name = ast.ident.to_string();
    let out = generate_plugin_tokens(&ast.attrs[0], &name);
    let text = out.to_string();
    assert!(text.contains("compile_error"));
    assert!(text.contains("Unknown key 'foo'"));
}

#[test]
fn plugin_tokens_round_trip_the_literals() {
    let ast = derive_input(
        "#[plugin(id = \"a\\\"b\", name = \"n\", version = \"v\", api = \"w\")] struct P;",
    );
    let name = ast.ident.to_string();
    let out = generate_plugin_tokens(&ast.attrs[0], &name);
    let text = out.to_string();
    assert!(!text.contains("compile_error"));
    assert!(text.contains("get_id"));
    assert!(text.contains("a\\\"b"));
}
