use chisel::config::{ParseErrorKind, RunConfiguration};
use chisel::options::OptionMap;

fn names(c: &RunConfiguration) -> Vec<String> {
    c.rulesets().iter().map(|r| r.name.clone()).collect()
}

fn parse_err(modules: &str, options: &str) -> (ParseErrorKind, String) {
    let e = RunConfiguration::from_args(modules, options).unwrap_err();
    (e.kind, e.token)
}

#[test]
fn two_modules_without_options() {
    let c = RunConfiguration::from_args("a,b", "").unwrap();
    assert_eq!(names(&c), vec!["a".to_string(), "b".to_string()]);
    assert_eq!(c.len(), 2);
    for r in c.rulesets() {
        assert!(!r.options.contains_key("file"));
        assert!(!r.options.contains_key("output"));
    }
}

#[test]
fn module_order_is_kept() {
    let c = RunConfiguration::from_args("verifyimports,deployer,remapimports", "").unwrap();
    assert_eq!(
        names(&c),
        vec!["verifyimports".to_string(), "deployer".to_string(), "remapimports".to_string()]
    );
    assert_eq!(c.module_list(), "verifyimports,deployer,remapimports");
}

#[test]
fn single_module_round_trip() {
    let c = RunConfiguration::from_args("deployer", "").unwrap();
    assert_eq!(c.module_list(), "deployer");
}

#[test]
fn options_go_to_their_module() {
    let c = RunConfiguration::from_args("a,b", "a.preset=ewasm,b.mode=strict,a.preset=pywebassembly")
        .unwrap();
    let r = c.rulesets();
    assert_eq!(r[0].options.get("preset"), Some("pywebassembly".to_string()));
    assert_eq!(r[0].options.get("mode"), None);
    assert_eq!(r[1].options.get("mode"), Some("strict".to_string()));
    assert_eq!(r[1].options.get("preset"), None);
}

#[test]
fn value_keeps_later_equals_and_key_keeps_dots() {
    let c = RunConfiguration::from_args("a", "a.x.y=1=2").unwrap();
    assert_eq!(c.rulesets()[0].options.get("x.y"), Some("1=2".to_string()));
}

#[test]
fn empty_value_is_accepted() {
    let c = RunConfiguration::from_args("a", "a.x=").unwrap();
    assert_eq!(c.rulesets()[0].options.get("x"), Some(String::new()));
}

#[test]
fn empty_module_name_is_refused() {
    assert_eq!(parse_err("a,,b", ""), (ParseErrorKind::EmptyModuleName, String::new()));
    assert_eq!(parse_err("", ""), (ParseErrorKind::EmptyModuleName, String::new()));
    assert_eq!(parse_err("a,", ""), (ParseErrorKind::EmptyModuleName, String::new()));
}

#[test]
fn duplicate_module_is_refused() {
    assert_eq!(parse_err("a,b,a", ""), (ParseErrorKind::DuplicateModule, "a".to_string()));
}

#[test]
fn option_without_value_is_refused() {
    assert_eq!(parse_err("a", "a.x"), (ParseErrorKind::MissingValue, "a.x".to_string()));
    assert_eq!(parse_err("a", "a.x=1,"), (ParseErrorKind::MissingValue, String::new()));
}

#[test]
fn option_without_module_is_refused() {
    assert_eq!(parse_err("a", "x=1"), (ParseErrorKind::MissingModule, "x=1".to_string()));
}

#[test]
fn option_with_empty_key_is_refused() {
    assert_eq!(parse_err("a", "a.=1"), (ParseErrorKind::EmptyKey, "a.=1".to_string()));
}

#[test]
fn option_for_unlisted_module_is_refused() {
    assert_eq!(parse_err("a,b", "a.x=1,c.x=1"), (ParseErrorKind::UnknownModule, "c.x=1".to_string()));
}

#[test]
fn first_fault_is_reported() {
    assert_eq!(parse_err("a", "a.x,y=1"), (ParseErrorKind::MissingValue, "a.x".to_string()));
    // module names are checked before options
    assert_eq!(parse_err("a,a", "zzz"), (ParseErrorKind::DuplicateModule, "a".to_string()));
}

#[test]
fn fault_descriptions() {
    let e = RunConfiguration::from_args("a,a", "").unwrap_err();
    assert_eq!(e.describe(), "module listed more than once: a");
    let e = RunConfiguration::from_args("a", "b.k=v").unwrap_err();
    assert_eq!(e.describe(), "option for a module that is not listed: b.k=v");
    let e = RunConfiguration::from_args(",", "").unwrap_err();
    assert_eq!(e.describe(), "empty module name in the module list");
}

#[test]
fn injection_touches_first_ruleset_only() {
    let mut c = RunConfiguration::from_args("a,b", "a.k=1,b.k=2").unwrap();
    c.inject_bindings("/tmp/in.wasm".to_string(), "/tmp/out.wasm".to_string());
    let r = c.rulesets();
    assert_eq!(r[0].name, "a");
    assert_eq!(r[0].options.get("file"), Some("/tmp/in.wasm".to_string()));
    assert_eq!(r[0].options.get("output"), Some("/tmp/out.wasm".to_string()));
    assert_eq!(r[0].options.get("k"), Some("1".to_string()));
    assert_eq!(r[1].name, "b");
    assert!(!r[1].options.contains_key("file"));
    assert!(!r[1].options.contains_key("output"));
    assert_eq!(r[1].options.get("k"), Some("2".to_string()));
}

#[test]
fn injection_replaces_given_bindings() {
    let mut c = RunConfiguration::from_args("a", "a.file=x,a.output=y").unwrap();
    c.inject_bindings("in".to_string(), "out".to_string());
    assert_eq!(c.rulesets()[0].options.get("file"), Some("in".to_string()));
    assert_eq!(c.rulesets()[0].options.get("output"), Some("out".to_string()));
}

#[test]
fn option_map_insert_and_get() {
    let mut m = OptionMap::new();
    assert_eq!(m.get("k"), None);
    m.insert("k".to_string(), "1".to_string());
    m.insert("j".to_string(), "2".to_string());
    m.insert("k".to_string(), "3".to_string());
    assert_eq!(m.get("k"), Some("3".to_string()));
    assert_eq!(m.get("j"), Some("2".to_string()));
    assert!(!m.contains_key("x"));
}
