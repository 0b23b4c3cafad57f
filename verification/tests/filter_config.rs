use wasm_shim::configuration::{
    DataItem, DataType, FailureMode, FilterConfig, PatternExpression, PluginConfiguration,
    SelectorItem, StaticItem, WhenConditionOperator,
};
use wasm_shim::expression::Fault;
use wasm_shim::policy::{Condition, Policy, Rule};
use wasm_shim::policy_index::PolicyIndex;
use wasm_shim::schema::AttributeType;

fn condition(selector: &str, operator: WhenConditionOperator, value: &str) -> PatternExpression {
    PatternExpression::new(selector.to_string(), operator, value.to_string())
}

fn policy(name: &str, hostnames: &[&str], rules: Vec<Rule>) -> Policy {
    Policy {
        name: name.to_string(),
        domain: name.to_string(),
        service: "limitador-cluster".to_string(),
        hostnames: hostnames.iter().map(|h| h.to_string()).collect(),
        rules,
    }
}

fn configuration() -> PluginConfiguration {
    PluginConfiguration {
        failure_mode: FailureMode::Deny,
        policies: vec![policy(
            "rlp-ns-A/rlp-name-A",
            &["*.toystore.com", "example.com"],
            vec![Rule {
                conditions: vec![Condition {
                    all_of: vec![
                        condition("request.path", WhenConditionOperator::Equal, "/admin/toy"),
                        condition("request.method", WhenConditionOperator::Equal, "POST"),
                        condition("request.host", WhenConditionOperator::Equal, "cars.toystore.com"),
                    ],
                }],
                data: vec![
                    DataItem {
                        item: DataType::Static(StaticItem {
                            key: "rlp-ns-A/rlp-name-A".to_string(),
                            value: "1".to_string(),
                        }),
                    },
                    DataItem {
                        item: DataType::Selector(SelectorItem::new(
                            "auth.metadata.username".to_string(),
                            None,
                            None,
                        )),
                    },
                ],
            }],
        )],
    }
}

#[test]
fn filter_config_from_configuration() {
    let result = FilterConfig::try_from(configuration());
    let filter_config = result.expect("That didn't work");
    let rlp_option = filter_config.index.get_longest_match_policy("example.com");
    assert!(rlp_option.is_some());

    let rlp_option = filter_config
        .index
        .get_longest_match_policy("test.toystore.com");
    assert!(rlp_option.is_some());

    let rlp_option = filter_config.index.get_longest_match_policy("unknown");
    assert!(rlp_option.is_none());
}

#[test]
fn a_filter_config_holds_compiled_policies() {
    let filter_config = FilterConfig::try_from(configuration()).expect("That didn't work");
    assert_eq!(filter_config.failure_mode, FailureMode::Deny);
    let policies = filter_config.index.policies();
    assert_eq!(policies.len(), 1);
    let rule = &policies[0].rules[0];
    for condition in &rule.conditions[0].all_of {
        assert!(condition.is_compiled());
        assert!(condition.compiled().is_some());
    }
    assert_eq!(rule.conditions[0].all_of[2].path(), vec!["request", "host"]);
    match &rule.data[1].item {
        DataType::Selector(item) => {
            assert_eq!(item.path().tokens(), vec!["auth", "metadata", "username"])
        }
        DataType::Static(_) => panic!(),
    }
    assert_eq!(
        rule.applies(&vec![vec![
            Some(b"/admin/toy".to_vec()),
            Some(b"POST".to_vec()),
            Some(b"cars.toystore.com".to_vec()),
        ]]),
        Ok(true)
    );
}

#[test]
fn no_filter_config_comes_of_a_condition_that_does_not_compile() {
    let mut config = configuration();
    config.policies.push(policy(
        "second",
        &["other.com"],
        vec![Rule {
            conditions: vec![Condition {
                all_of: vec![
                    condition("request.path", WhenConditionOperator::Equal, "/ok"),
                    condition("connection.mtls", WhenConditionOperator::Matches, "true"),
                    condition("destination.port", WhenConditionOperator::Equal, "http"),
                ],
            }],
            data: vec![],
        }],
    ));
    let error = match FilterConfig::try_from(config) {
        Ok(_) => panic!("must not load"),
        Err(error) => error,
    };
    assert_eq!(error.fault, Fault::UnsupportedOperator(AttributeType::Bool));
    assert_eq!(error.selector, "connection.mtls");
    assert_eq!(error.operator, Some(WhenConditionOperator::Matches));
    assert_eq!(error.value, Some("true".to_string()));
}

#[test]
fn no_filter_config_comes_of_what_was_compiled_before() {
    let mut config = configuration();
    let mut item = SelectorItem::new("source.address".to_string(), None, None);
    item.compile().expect("Should compile fine!");
    config.policies[0].rules[0].data.push(DataItem { item: DataType::Selector(item) });
    let error = match FilterConfig::try_from(config) {
        Ok(_) => panic!("must not load"),
        Err(error) => error,
    };
    assert_eq!(error.fault, Fault::AlreadyCompiled);
    assert_eq!(error.selector, "source.address");
    assert_eq!(error.operator, None);
    assert_eq!(error.value, None);
}

#[test]
fn a_directive_is_compiled_before_the_conditions_of_its_rule() {
    let mut config = configuration();
    let mut item = SelectorItem::new("source.address".to_string(), None, None);
    item.compile().expect("Should compile fine!");
    config.policies[0].rules[0].data.push(DataItem { item: DataType::Selector(item) });
    config.policies[0].rules[0].conditions[0]
        .all_of
        .insert(0, condition("destination.port", WhenConditionOperator::Equal, "http"));
    let error = match FilterConfig::try_from(config) {
        Ok(_) => panic!("must not load"),
        Err(error) => error,
    };
    assert_eq!(error.fault, Fault::AlreadyCompiled);
}

#[test]
fn the_default_filter_config_is_empty_and_denies() {
    let filter_config = FilterConfig::default();
    assert_eq!(filter_config.failure_mode, FailureMode::Deny);
    assert!(filter_config.index.policies().is_empty());
    assert!(filter_config.index.get_longest_match_policy("example.com").is_none());
}

#[test]
fn the_longest_match_wins() {
    let index = PolicyIndex::from_policies(vec![
        policy("wide", &["*.com"], vec![]),
        policy("narrow", &["*.toystore.com"], vec![]),
        policy("exact", &["cars.toystore.com"], vec![]),
        policy("all", &["*"], vec![]),
        policy("later", &["*.toystore.com"], vec![]),
    ]);
    let name = |hostname: &str| index.get_longest_match_policy(hostname).map(|p| p.name.as_str());
    assert_eq!(name("cars.toystore.com"), Some("exact"));
    assert_eq!(name("bikes.toystore.com"), Some("later"));
    assert_eq!(name("example.com"), Some("wide"));
    assert_eq!(name("example.org"), Some("all"));
    assert_eq!(name("toystore.com"), Some("wide"));
    assert_eq!(name("x.cars.toystore.com"), Some("later"));
    let exact = PolicyIndex::from_policies(vec![policy("only", &["example.com"], vec![])]);
    assert!(exact.get_longest_match_policy("example.com").is_some());
    assert!(exact.get_longest_match_policy("www.example.com").is_none());
    assert!(exact.get_longest_match_policy("ample.com").is_none());
    assert!(PolicyIndex::new().get_longest_match_policy("example.com").is_none());
}
