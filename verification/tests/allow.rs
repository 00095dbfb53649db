use senv::cmd::allow::plan_allow;

fn hosts(list: &[&str]) -> Vec<String> {
    list.iter().map(|s| s.to_string()).collect()
}

#[test]
fn allowing_a_host_writes_an_allowlist_and_keeps_the_rest_of_the_file() {
    let text = "# my settings\n[env]\npython = \"3.13\"\n";
    let plan = plan_allow("senv.toml", text, &hosts(&["api.example.com"])).unwrap();
    let written = plan.text.expect("something to write");
    assert!(written.contains("# my settings"), "{written}");
    let parsed: toml::Value = toml::from_str(&written).unwrap();
    assert_eq!(parsed["run"]["net"].as_array().unwrap().len(), 1);
    assert_eq!(parsed["env"]["python"].as_str(), Some("3.13"));
    assert_eq!(plan.added, hosts(&["api.example.com"]));
    assert_eq!(plan.net, hosts(&["api.example.com"]));
}

#[test]
fn a_host_already_allowed_is_not_added_twice() {
    let text = "[run]\nnet = [\"a.example.com\", 7]\n";
    let plan = plan_allow("senv.toml", text, &hosts(&["a.example.com", "b.example.com", "b.example.com"])).unwrap();
    assert_eq!(plan.added, hosts(&["b.example.com"]));
    assert_eq!(plan.already_present, hosts(&["a.example.com", "b.example.com"]));
    assert_eq!(plan.net, hosts(&["a.example.com", "b.example.com"]));
    let parsed: toml::Value = toml::from_str(&plan.text.unwrap()).unwrap();
    let net: Vec<&str> = parsed["run"]["net"].as_array().unwrap().iter().map(|v| v.as_str().unwrap()).collect();
    assert_eq!(net, vec!["a.example.com", "b.example.com"]);
}

#[test]
fn an_unrestricted_network_is_not_silently_narrowed() {
    let plan = plan_allow("senv.toml", "[run]\nnet = \"host\"\n", &hosts(&["api.example.com"])).unwrap();
    assert!(plan.text.is_none(), "nothing is written");
    assert_eq!(plan.net, hosts(&["host"]));
    assert!(plan.added.is_empty());
    assert!(plan.warnings[0].contains("already unrestricted"));
}

#[test]
fn what_cannot_be_allowed_is_refused_before_the_file_is_touched() {
    let err = plan_allow("senv.toml", "not [valid", &hosts(&["*"])).err().unwrap();
    assert!(err.message().contains("not a host senv can allow"), "{}", err.message());
    let err = plan_allow("senv.toml", "not [valid", &hosts(&["api.example.com"])).err().unwrap();
    assert!(matches!(err, senv::error::SenvError::Config { .. }));
    let err = plan_allow("senv.toml", "run = 5\n", &hosts(&["api.example.com"])).err().unwrap();
    assert!(err.message().contains("not a table"), "{}", err.message());
}
