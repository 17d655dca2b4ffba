use rest_bindings::admin_emoji::AdminEmoji;
use rest_bindings::envelope_workflow_definition::EnvelopeWorkflowDefinition;
use rest_bindings::percent::encode_path;
use rest_bindings::request::{fill_one, fill_two, Method};
use rest_bindings::text::{signed_to_string, unsigned_to_string};
use rest_bindings::webhooks::Webhooks;

#[test]
fn plain_identifiers_stand_for_themselves() {
    assert_eq!(encode_path("A1"), "A1");
    assert_eq!(encode_path(""), "");
    assert_eq!(encode_path("AZaz09-._~"), "AZaz09-._~");
}

#[test]
fn reserved_characters_are_escaped() {
    assert_eq!(encode_path("a/b?c#d"), "a%2Fb%3Fc%23d");
    assert_eq!(encode_path("/"), "%2F");
    assert_eq!(encode_path("?"), "%3F");
    assert_eq!(encode_path("#"), "%23");
    assert_eq!(encode_path("100%"), "100%25");
    assert_eq!(encode_path("a b"), "a%20b");
    assert_eq!(encode_path("x*y"), "x%2Ay");
}

#[test]
fn bytes_above_ascii_are_escaped_one_by_one() {
    assert_eq!(encode_path("comt\u{e9}"), "comt%C3%A9");
    assert_eq!(encode_path("\u{20ac}"), "%E2%82%AC");
    assert_eq!(encode_path("\u{0}\u{7f}"), "%00%7F");
}

#[test]
fn escapes_use_upper_case_digits() {
    assert_eq!(encode_path("\u{ab}"), "%C2%AB");
    assert_eq!(encode_path("["), "%5B");
    assert_eq!(encode_path("@`{"), "%40%60%7B");
}

#[test]
fn envelope_workflow_path_of_plain_identifiers() {
    let binding = EnvelopeWorkflowDefinition::new(());
    let request = binding.get("A1", "E1");
    assert_eq!(request.method, Method::Get);
    assert_eq!(request.url, "/v2.1/accounts/A1/envelopes/E1/workflow");
    assert_eq!(request.body, None);
}

#[test]
fn identifier_with_delimiters_keeps_the_template() {
    let binding = EnvelopeWorkflowDefinition::new(());
    let request = binding.get("a/b", "e?x#y");
    assert_eq!(request.url, "/v2.1/accounts/a%2Fb/envelopes/e%3Fx%23y/workflow");
    assert_eq!(request.url.matches('/').count(), 6);
    assert!(!request.url.contains('?'));
    assert!(!request.url.contains('#'));
}

#[test]
fn envelope_operations_share_one_path() {
    let binding = EnvelopeWorkflowDefinition::new(());
    let body = vec![b'{', b'}'];
    let put = binding.put("A1", "E 1", body.clone());
    assert_eq!(put.method, Method::Put);
    assert_eq!(put.url, "/v2.1/accounts/A1/envelopes/E%201/workflow");
    assert_eq!(put.body, Some(body));
    let delete = binding.delete("A1", "E 1");
    assert_eq!(delete.method, Method::Delete);
    assert_eq!(delete.url, "/v2.1/accounts/A1/envelopes/E%201/workflow");
    assert_eq!(delete.body, None);
}

#[test]
fn template_operations_share_one_path() {
    let binding = EnvelopeWorkflowDefinition::new(());
    let get = binding.get_template("A1", "T/1");
    assert_eq!(get.method, Method::Get);
    assert_eq!(get.url, "/v2.1/accounts/A1/templates/T%2F1/workflow");
    assert_eq!(get.body, None);
    let body = vec![b'[', b']'];
    let put = binding.put_template("A1", "T/1", body.clone());
    assert_eq!(put.method, Method::Put);
    assert_eq!(put.url, "/v2.1/accounts/A1/templates/T%2F1/workflow");
    assert_eq!(put.body, Some(body));
    let delete = binding.delete_template("A1", "T/1");
    assert_eq!(delete.method, Method::Delete);
    assert_eq!(delete.url, "/v2.1/accounts/A1/templates/T%2F1/workflow");
    assert_eq!(delete.body, None);
}

#[test]
fn binding_keeps_its_client() {
    assert_eq!(EnvelopeWorkflowDefinition::new(7u8).client, 7u8);
    assert_eq!(Webhooks::new("handle").client, "handle");
    assert_eq!(AdminEmoji::new(vec![1u8, 2]).client, vec![1u8, 2]);
}

#[test]
fn filled_templates() {
    assert_eq!(fill_one("/webhook/", "a/b"), "/webhook/a%2Fb");
    assert_eq!(fill_one("", ""), "");
    assert_eq!(fill_two("/a/", "x y", "/b/", "z", "/c"), "/a/x%20y/b/z/c");
    assert_eq!(fill_two("", "", "", "", ""), "");
}

#[test]
fn decimal_numerals() {
    assert_eq!(signed_to_string(0), "0");
    assert_eq!(signed_to_string(7), "7");
    assert_eq!(signed_to_string(10), "10");
    assert_eq!(signed_to_string(-1), "-1");
    assert_eq!(signed_to_string(-120), "-120");
    assert_eq!(signed_to_string(i64::MAX), "9223372036854775807");
    assert_eq!(signed_to_string(i64::MIN), "-9223372036854775808");
    assert_eq!(unsigned_to_string(0), "0");
    assert_eq!(unsigned_to_string(909), "909");
    assert_eq!(unsigned_to_string(u64::MAX), "18446744073709551615");
}

#[test]
fn webhook_delete_path() {
    let binding = Webhooks::new(());
    let request = binding.delete(42);
    assert_eq!(request.method, Method::Delete);
    assert_eq!(request.url, "/webhook/42");
    assert_eq!(request.body, None);
    assert_eq!(binding.delete(-5).url, "/webhook/-5");
    assert_eq!(binding.delete(0).url, "/webhook/0");
    assert_eq!(binding.delete(i64::MIN).url, "/webhook/-9223372036854775808");
}

#[test]
fn emoji_posts_have_fixed_paths() {
    let binding = AdminEmoji::new(());
    let add = binding.add();
    assert_eq!(add.method, Method::Post);
    assert_eq!(add.url, "/admin.emoji.add");
    assert_eq!(add.body, None);
    let alias = binding.add_alias();
    assert_eq!(alias.method, Method::Post);
    assert_eq!(alias.url, "/admin.emoji.addAlias");
    assert_eq!(alias.body, None);
    let remove = binding.remove();
    assert_eq!(remove.method, Method::Post);
    assert_eq!(remove.url, "/admin.emoji.remove");
    assert_eq!(remove.body, None);
    let rename = binding.rename();
    assert_eq!(rename.method, Method::Post);
    assert_eq!(rename.url, "/admin.emoji.rename");
    assert_eq!(rename.body, None);
}
