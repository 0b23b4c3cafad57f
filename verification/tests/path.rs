use wasm_shim::configuration::SelectorItem;
use wasm_shim::path::Path;

#[test]
fn path_tokenizes_with_escaping_basic() {
    let path: Path = Path::from(r"one\.two..three\\\\.four\\\.\five.");
    assert_eq!(
        path.tokens(),
        vec!["one.two", "", r"three\\", r"four\.five", ""]
    );
}

#[test]
fn path_tokenizes_with_escaping_ends_with_separator() {
    let path: Path = Path::from(r"one.");
    assert_eq!(path.tokens(), vec!["one", ""]);
}

#[test]
fn path_tokenizes_with_escaping_ends_with_escape() {
    let path: Path = Path::from(r"one\");
    assert_eq!(path.tokens(), vec!["one"]);
}

#[test]
fn path_tokenizes_with_escaping_starts_with_separator() {
    let path: Path = Path::from(r".one");
    assert_eq!(path.tokens(), vec!["", "one"]);
}

#[test]
fn path_tokenizes_with_escaping_starts_with_escape() {
    let path: Path = Path::from(r"\one");
    assert_eq!(path.tokens(), vec!["one"]);
}

#[test]
fn path_of_the_empty_selector_has_one_empty_token() {
    assert_eq!(Path::from("").tokens(), vec![""]);
}

#[test]
fn path_keeps_an_escaped_backslash_and_does_not_split_after_it() {
    assert_eq!(Path::from(r"a\\.b").tokens(), vec![r"a\", "b"]);
    assert_eq!(Path::from(r"a\\\.b").tokens(), vec![r"a\.b"]);
}

#[test]
fn path_renders_with_escaped_dots() {
    assert_eq!(Path::from(r"one\.two.three").to_string(), r"one\.two.three");
    assert_eq!(Path::from("request.host").to_string(), "request.host");
    assert_eq!(Path::from("").to_string(), "");
    assert_eq!(Path::from(".").to_string(), ".");
    assert_eq!(Path::from("a..b.").to_string(), "a..b.");
}

#[test]
fn path_rendering_leaves_a_backslash_as_it_is() {
    let path = Path::from(r"three\\\\.four");
    assert_eq!(path.tokens(), vec![r"three\\", "four"]);
    assert_eq!(path.to_string(), r"three\\.four");
}

#[test]
fn rendered_path_tokenizes_to_the_same_tokens() {
    for selector in [
        "request.host",
        r"one\.two.three",
        "auth.metadata.username",
        ".one",
        "one.",
        "",
        r"filter_state.envoy\.filters\.http.x",
    ] {
        let path = Path::from(selector);
        let again = Path::from(path.to_string().as_str());
        assert_eq!(again.tokens(), path.tokens());
    }
}

#[test]
fn rendered_path_with_a_backslash_token_does_not_come_back() {
    let path = Path::from(r"a\\b");
    assert_eq!(path.tokens(), vec![r"a\b"]);
    let again = Path::from(path.to_string().as_str());
    assert_eq!(again.tokens(), vec!["ab"]);
}

#[test]
fn selector_item_compiles_once() {
    let mut item = SelectorItem::new("auth.metadata.username".to_string(), None, None);
    item.compile().expect("Should compile fine!");
    assert_eq!(item.path().tokens(), vec!["auth", "metadata", "username"]);
    let second = item.compile();
    assert!(second.is_err());
    assert_eq!(item.path().tokens(), vec!["auth", "metadata", "username"]);
}

#[test]
fn a_slot_is_written_once() {
    let mut slot: wasm_shim::once_slot::OnceSlot<u32> = Default::default();
    assert!(!slot.is_set());
    assert_eq!(slot.get(), None);
    assert_eq!(slot.set(1), Ok(()));
    assert_eq!(slot.set(2), Err(2));
    assert_eq!(slot.get(), Some(&1));
    assert!(slot.is_set());
}

#[test]
fn a_failed_compile_of_a_directive_changes_nothing() {
    let mut item = SelectorItem::new(
        "a.b".to_string(),
        Some("key".to_string()),
        Some("default".to_string()),
    );
    item.compile().expect("Should compile fine!");
    assert!(item.compile().is_err());
    assert_eq!(item.selector, "a.b");
    assert_eq!(item.key.as_deref(), Some("key"));
    assert_eq!(item.default.as_deref(), Some("default"));
    assert_eq!(item.path().tokens(), vec!["a", "b"]);
}
