use rest_bindings::admin_emoji::AdminEmoji;
use rest_bindings::query::QueryArgs;
use rest_bindings::request::{append_query, Method};
use rest_bindings::webhooks::Webhooks;

fn pair(name: &str, value: &str) -> (String, String) {
    (name.to_string(), value.to_string())
}

#[test]
fn page_query_without_limit() {
    let binding = Webhooks::new(());
    let request = binding.get_page("ORDER_SHIPPED", 2, 0);
    assert_eq!(request.method, Method::Get);
    assert!(request.url.contains("Page=2&Topic=ORDER_SHIPPED"));
    assert!(!request.url.contains("Limit"));
    assert_eq!(request.url, "/webhook?Page=2&Topic=ORDER_SHIPPED");
    assert_eq!(request.body, None);
}

#[test]
fn page_query_in_fixed_order() {
    let binding = Webhooks::new(());
    let request = binding.get_page("order_shipped", 3, 25);
    assert_eq!(request.url, "/webhook?Limit=25&Page=3&Topic=order_shipped");
    assert_eq!(request.url.matches("Limit=25").count(), 1);
    assert_eq!(request.url.matches("Page=3").count(), 1);
    assert_eq!(request.url.matches("Topic=order_shipped").count(), 1);
}

#[test]
fn empty_fields_are_left_out() {
    let binding = Webhooks::new(());
    assert_eq!(binding.get_page("", 0, 0).url, "/webhook?");
    assert_eq!(binding.get_page("", 0, -7).url, "/webhook?");
    assert_eq!(binding.get_page("", 1, i64::MIN).url, "/webhook?Page=1");
    assert_eq!(binding.get_page("t", 0, 1).url, "/webhook?Limit=1&Topic=t");
    assert_eq!(
        binding.get_page("", u64::MAX, i64::MAX).url,
        "/webhook?Limit=9223372036854775807&Page=18446744073709551615"
    );
}

#[test]
fn values_are_form_encoded() {
    let binding = Webhooks::new(());
    let request = binding.get_page("order shipped&x=1", 1, 0);
    assert_eq!(request.url, "/webhook?Page=1&Topic=order+shipped%26x%3D1");
}

#[test]
fn all_pages_query() {
    let binding = Webhooks::new(());
    let request = binding.get_all("ORDER_SHIPPED");
    assert_eq!(request.method, Method::GetAllPages);
    assert_eq!(request.url, "/webhook?Topic=ORDER_SHIPPED");
    assert_eq!(request.body, None);
    assert_eq!(binding.get_all("").url, "/webhook?");
}

#[test]
fn webhook_post_carries_the_body() {
    let binding = Webhooks::new(());
    let body = vec![1u8, 2, 3];
    let request = binding.post(body.clone());
    assert_eq!(request.method, Method::Post);
    assert_eq!(request.url, "/webhook");
    assert_eq!(request.body, Some(body));
}

#[test]
fn emoji_list_query() {
    let binding = AdminEmoji::new(());
    let request = binding.list("dXNlcjpVMDYx", 100);
    assert_eq!(request.method, Method::Get);
    assert_eq!(request.url, "/admin.emoji.list?cursor=dXNlcjpVMDYx&limit=100");
    assert_eq!(request.body, None);
    assert_eq!(binding.list("", 0).url, "/admin.emoji.list?");
    assert_eq!(binding.list("", -1).url, "/admin.emoji.list?");
    assert_eq!(binding.list("", 5).url, "/admin.emoji.list?limit=5");
    assert_eq!(binding.list("a=b", 0).url, "/admin.emoji.list?cursor=a%3Db");
    assert_eq!(binding.list("limit", 0).url, "/admin.emoji.list?cursor=limit");
}

#[test]
fn arguments_are_added_only_when_present() {
    let mut args = QueryArgs::new();
    assert!(args.pairs.is_empty());
    args.add_text("a", "");
    args.add_number("b", 0);
    args.add_number("c", -3);
    args.add_count("d", 0);
    assert!(args.pairs.is_empty());
    assert_eq!(args.encode(), "");
    args.add_text("a", "x");
    args.add_number("b", 12);
    args.add_count("d", 34);
    assert_eq!(args.pairs, vec![pair("a", "x"), pair("b", "12"), pair("d", "34")]);
    assert_eq!(args.encode(), "a=x&b=12&d=34");
}

#[test]
fn encoding_of_one_pair() {
    let mut args = QueryArgs::new();
    args.add_text("bread", "baguette");
    assert_eq!(args.encode(), "bread=baguette");
}

#[test]
fn encoding_escapes_names_and_values() {
    let mut args = QueryArgs::new();
    args.add_text("a b", "c=d");
    args.add_text("k&", "*-._~");
    args.add_text("cheese", "comt\u{e9}");
    args.add_text("p", "1+1/2?#%");
    assert_eq!(
        args.encode(),
        "a+b=c%3Dd&k%26=*-._%7E&cheese=comt%C3%A9&p=1%2B1%2F2%3F%23%25"
    );
}

#[test]
fn encoding_of_a_pair_with_an_empty_name() {
    let mut args = QueryArgs::new();
    args.add_text("", "v");
    args.add_text("", "w");
    assert_eq!(args.encode(), "=v&=w");
}

#[test]
fn query_behind_a_path() {
    let mut args = QueryArgs::new();
    assert_eq!(append_query("/p", &args), "/p?");
    args.add_number("n", 1);
    assert_eq!(append_query("/p", &args), "/p?n=1");
    assert_eq!(append_query("", &args), "?n=1");
}

#[test]
fn separators_come_from_the_pairs_alone() {
    let mut args = QueryArgs::new();
    args.add_text("a&b", "c=d&e=f");
    args.add_text("g=", "&&==");
    args.add_number("h", 8);
    let query = args.encode();
    assert_eq!(query, "a%26b=c%3Dd%26e%3Df&g%3D=%26%26%3D%3D&h=8");
    assert_eq!(query.matches('=').count(), 3);
    assert_eq!(query.matches('&').count(), 2);
}
