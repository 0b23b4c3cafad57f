use wasm_shim::attribute::DecodeError;
use wasm_shim::configuration::{
    DataItem, DataType, DescriptorEntry, PatternExpression, SelectorItem, StaticItem,
    WhenConditionOperator,
};
use wasm_shim::expression::EvalError;
use wasm_shim::policy::{Condition, Rule};

fn entry(key: &str, value: &str) -> DescriptorEntry {
    DescriptorEntry { key: key.to_string(), value: value.to_string() }
}

fn static_item(key: &str, value: &str) -> DataItem {
    DataItem {
        item: DataType::Static(StaticItem { key: key.to_string(), value: value.to_string() }),
    }
}

fn selector_item(selector: &str, key: Option<&str>, default: Option<&str>) -> DataItem {
    DataItem {
        item: DataType::Selector(SelectorItem::new(
            selector.to_string(),
            key.map(str::to_string),
            default.map(str::to_string),
        )),
    }
}

fn compiled(selector: &str, operator: WhenConditionOperator, value: &str) -> PatternExpression {
    let mut condition = PatternExpression::new(selector.to_string(), operator, value.to_string());
    condition.compile().expect("Should compile fine!");
    condition
}

#[test]
fn an_absent_attribute_without_default_gives_no_descriptor() {
    let rule = Rule {
        conditions: vec![],
        data: vec![
            static_item("rlp-ns-A/rlp-name-A", "1"),
            selector_item("auth.metadata.username", None, None),
        ],
    };
    assert_eq!(
        rule.descriptor_entries(&vec![None, None]),
        Ok(vec![entry("rlp-ns-A/rlp-name-A", "1")])
    );
}

#[test]
fn a_present_attribute_gives_its_text_under_the_selector() {
    let rule = Rule {
        conditions: vec![],
        data: vec![
            static_item("rlp-ns-A/rlp-name-A", "1"),
            selector_item("auth.metadata.username", None, None),
        ],
    };
    assert_eq!(
        rule.descriptor_entries(&vec![None, Some(b"alice".to_vec())]),
        Ok(vec![entry("rlp-ns-A/rlp-name-A", "1"), entry("auth.metadata.username", "alice")])
    );
}

#[test]
fn the_key_and_the_default_of_a_selector_are_used() {
    let item = SelectorItem::new(
        "my.selector.path".to_string(),
        Some("mykey".to_string()),
        Some("my_selector_default_value".to_string()),
    );
    assert_eq!(item.descriptor_key(), "mykey");
    assert_eq!(item.descriptor(None), Ok(Some(entry("mykey", "my_selector_default_value"))));
    assert_eq!(item.descriptor(Some(&b"live".to_vec())), Ok(Some(entry("mykey", "live"))));
    assert_eq!(item.descriptor(Some(&vec![0xff])), Err(DecodeError::InvalidEncoding));
    let plain = SelectorItem::new("my.selector.path".to_string(), None, None);
    assert_eq!(plain.descriptor_key(), "my.selector.path");
    assert_eq!(plain.descriptor(None), Ok(None));
}

#[test]
fn attributes_beyond_the_list_are_absent() {
    let rule = Rule {
        conditions: vec![],
        data: vec![
            selector_item("a", None, Some("x")),
            static_item("k", "v"),
            selector_item("b", Some("bee"), None),
        ],
    };
    assert_eq!(rule.descriptor_entries(&vec![]), Ok(vec![entry("a", "x"), entry("k", "v")]));
    assert_eq!(
        rule.descriptor_entries(&vec![Some(b"1".to_vec()), Some(b"ignored".to_vec()), Some(b"2".to_vec())]),
        Ok(vec![entry("a", "1"), entry("k", "v"), entry("bee", "2")])
    );
}

#[test]
fn the_first_attribute_that_is_no_text_is_the_error() {
    let rule = Rule {
        conditions: vec![],
        data: vec![static_item("k", "v"), selector_item("a", None, None)],
    };
    assert_eq!(
        rule.descriptor_entries(&vec![None, Some(vec![0xc0])]),
        Err(DecodeError::InvalidEncoding)
    );
}

#[test]
fn a_rule_without_conditions_applies() {
    let rule = Rule { conditions: vec![], data: vec![static_item("k", "v")] };
    assert_eq!(rule.applies(&vec![]), Ok(true));
}

#[test]
fn a_group_holds_where_each_of_its_conditions_holds() {
    let group = Condition {
        all_of: vec![
            compiled("request.path", WhenConditionOperator::Equal, "/admin/toy"),
            compiled("request.method", WhenConditionOperator::Equal, "POST"),
            compiled("request.host", WhenConditionOperator::Equal, "cars.toystore.com"),
        ],
    };
    let attributes = |path: &str, method: &str, host: &str| {
        vec![
            Some(path.as_bytes().to_vec()),
            Some(method.as_bytes().to_vec()),
            Some(host.as_bytes().to_vec()),
        ]
    };
    assert_eq!(group.applies(&attributes("/admin/toy", "POST", "cars.toystore.com")), Ok(true));
    assert_eq!(group.applies(&attributes("/admin/toy", "GET", "cars.toystore.com")), Ok(false));
    assert_eq!(group.applies(&attributes("/admin/toy", "POST", "toystore.com")), Ok(false));
    assert_eq!(
        group.applies(&vec![Some(b"/admin/toy".to_vec()), Some(b"POST".to_vec()), None]),
        Ok(false)
    );
    assert_eq!(group.applies(&vec![Some(b"/admin/toy".to_vec())]), Ok(false));
    assert_eq!(Condition { all_of: vec![] }.applies(&vec![]), Ok(true));
}

#[test]
fn the_first_condition_that_does_not_hold_or_fails_decides() {
    let group = Condition {
        all_of: vec![
            compiled("request.method", WhenConditionOperator::Equal, "POST"),
            compiled("destination.port", WhenConditionOperator::Equal, "8080"),
        ],
    };
    let short = Some(vec![1, 2, 3, 4]);
    assert_eq!(group.applies(&vec![Some(b"GET".to_vec()), short.clone()]), Ok(false));
    assert!(matches!(
        group.applies(&vec![Some(b"POST".to_vec()), short]),
        Err(EvalError::Decode(DecodeError::WrongLength { expected: 8, actual: 4 }))
    ));
}

#[test]
fn a_rule_applies_where_one_of_its_groups_holds() {
    let rule = Rule {
        conditions: vec![
            Condition {
                all_of: vec![compiled("request.method", WhenConditionOperator::Equal, "POST")],
            },
            Condition {
                all_of: vec![compiled("request.method", WhenConditionOperator::Equal, "PUT")],
            },
        ],
        data: vec![],
    };
    let method = |name: &str| vec![Some(name.as_bytes().to_vec())];
    assert_eq!(rule.applies(&vec![method("POST"), method("POST")]), Ok(true));
    assert_eq!(rule.applies(&vec![method("PUT"), method("PUT")]), Ok(true));
    assert_eq!(rule.applies(&vec![method("GET"), method("GET")]), Ok(false));
    assert_eq!(rule.applies(&vec![method("PUT")]), Ok(false));
}
