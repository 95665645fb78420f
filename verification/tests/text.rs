use coomi::env::{env_extend, env_set, minimal_environment};
use coomi::input_queue::{ImageContent, InputQueue};
use coomi::order::str_lt;
use coomi::strmap::StrMap;
use coomi::text::{
    contains, decimal, ends_with, is_blank, lower_contains, lower_eq, starts_with, str_eq,
    take_chars, trim,
};

#[test]
fn trimming_follows_unicode_whitespace() {
    assert_eq!(trim("  a b \n"), "a b");
    assert_eq!(trim("\u{3000}x\u{a0}"), "x");
    assert_eq!(trim(" \t "), "");
    assert!(is_blank(" \u{2028}\r\n"));
    assert!(!is_blank(" . "));
}

#[test]
fn searching_text() {
    assert!(starts_with("https://x", "https://"));
    assert!(!starts_with("http://x", "https://"));
    assert!(ends_with("a.tar.gz", ".gz"));
    assert!(contains("abcabd", "abd"));
    assert!(!contains("ab", "abc"));
    assert!(contains("x", ""));
    assert!(lower_contains("May DELETE files", "delete"));
    assert!(lower_eq("OpenAI", "openai"));
    assert!(!lower_eq("OpenAIx", "openai"));
    assert!(str_eq("é", "é"));
}

#[test]
fn decimal_and_prefix_helpers() {
    assert_eq!(decimal(0), "0");
    assert_eq!(decimal(1234567890), "1234567890");
    assert_eq!(decimal(u64::MAX), u64::MAX.to_string());
    assert_eq!(take_chars("héllo", 2), "hé");
    assert_eq!(take_chars("hi", 10), "hi");
}

#[test]
fn string_order_is_by_characters() {
    assert!(str_lt("a", "b"));
    assert!(str_lt("a", "ab"));
    assert!(!str_lt("b", "ab"));
    assert!(!str_lt("x", "x"));
}

#[test]
fn maps_keep_keys_sorted_and_unique() {
    let mut m: StrMap<u32> = StrMap::new();
    m.insert("b".to_string(), 1);
    m.insert("a".to_string(), 2);
    m.insert("b".to_string(), 3);
    assert_eq!(m.len(), 2);
    assert_eq!(m.key_at(0), "a");
    assert_eq!(m.get("b"), Some(&3));
    assert_eq!(m.first_key().map(String::as_str), Some("a"));
    assert_eq!(m.remove("a"), Some(2));
    assert_eq!(m.remove("a"), None);
    assert!(!m.contains_key("a"));
    assert_eq!(m.find("b"), Some(0));
}

#[test]
fn environments_are_built_and_extended() {
    let mut env = minimal_environment("/home/u", "/tmp/u");
    assert_eq!(env.get("HOME").map(String::as_str), Some("/home/u"));
    assert_eq!(env.get("TMPDIR").map(String::as_str), Some("/tmp/u"));
    assert_eq!(env.get("LANG").map(String::as_str), Some("C.UTF-8"));
    assert_eq!(env.get("SSL_CERT_FILE").map(String::as_str), Some("/etc/ssl/certs/ca-certificates.crt"));
    assert_eq!(env.get("PATH").map(String::as_str), Some("/usr/local/sbin:/usr/local/bin:/usr/sbin:/usr/bin:/sbin:/bin"));
    assert_eq!(env.len(), 5);
    env_set(&mut env, "LANG", "en".to_string());
    let mut extra = StrMap::new();
    extra.insert("EXTRA".to_string(), "1".to_string());
    extra.insert("HOME".to_string(), "/other".to_string());
    env_extend(&mut env, &extra);
    assert_eq!(env.get("LANG").map(String::as_str), Some("en"));
    assert_eq!(env.get("HOME").map(String::as_str), Some("/other"));
    assert_eq!(env.get("EXTRA").map(String::as_str), Some("1"));
    assert_eq!(env.len(), 6);
}

#[test]
fn queued_input_comes_out_in_arrival_order() {
    let mut queue = InputQueue::default();
    queue.push("first".to_string(), Vec::new());
    queue.push(
        "second".to_string(),
        vec![ImageContent { media_type: "image/png".to_string(), data: "AAAA".to_string() }],
    );
    assert_eq!(queue.len(), 2);
    queue.discard_front("second");
    assert_eq!(queue.len(), 2);
    queue.discard_front("first");
    assert_eq!(queue.len(), 1);
    queue.push("third".to_string(), Vec::new());
    let drained = queue.drain();
    assert_eq!(drained.len(), 2);
    assert_eq!(drained[0].text, "second");
    assert_eq!(drained[0].images.len(), 1);
    assert_eq!(drained[1].text, "third");
    assert_eq!(queue.len(), 0);
    assert!(queue.drain().is_empty());
    let mut empty = InputQueue::new();
    empty.discard_front("x");
    assert_eq!(empty.len(), 0);
}
