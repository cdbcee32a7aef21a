use chisel::codec::{encode_output, hex_encode, plan_write, OutputMode, WriteAction};
use chisel::config::ParseErrorKind;
use chisel::driver::{Decision, DriverAdapter, DriverState, Phase};
use chisel::oneliner::{chisel_oneliner, write_report, ChiselFlags, Failure};

fn flags(modules: Option<&str>, file: Option<&str>) -> ChiselFlags {
    ChiselFlags {
        debugging: Some("false".to_string()),
        modules: modules.map(|s| s.to_string()),
        module_options: None,
        file: file.map(|s| s.to_string()),
        output: None,
        mode: Some("hex".to_string()),
    }
}

#[test]
fn end_to_end_hex_to_stdout() {
    let setup = chisel_oneliner(flags(Some("a,b"), Some("/tmp/in.wasm"))).unwrap();
    assert_eq!(setup.log_level, 0);
    let r = setup.config.rulesets();
    assert_eq!(r.len(), 2);
    assert_eq!(r[0].name, "a");
    assert_eq!(r[1].name, "b");
    assert_eq!(r[0].options.get("file"), Some("/tmp/in.wasm".to_string()));
    assert_eq!(r[0].options.get("output"), Some("/dev/stdout".to_string()));
    assert!(!r[1].options.contains_key("file"));

    let mut adapter = DriverAdapter::new();
    assert!(matches!(adapter.observe(DriverState::Continuing), Decision::Advance));
    assert!(matches!(adapter.observe(DriverState::Done), Decision::Collect));
    assert_eq!(adapter.phase(), Phase::Finished);

    let mode = OutputMode::from_name("hex").unwrap();
    let bytes = encode_output(mode, &vec![0x00, 0x61, 0x73, 0x6d], &Vec::new());
    assert_eq!(bytes, b"0061736d".to_vec());
    assert_eq!(plan_write(&bytes, None), WriteAction::Write);
    assert_eq!(write_report(Ok(true)).unwrap(), "Successfully wrote output to file.");
}

#[test]
fn no_modules_fails_with_status_one() {
    let f = chisel_oneliner(flags(None, Some("/tmp/in.wasm"))).unwrap_err();
    assert!(matches!(f, Failure::NoModules));
    assert_eq!(f.exit_code(), 1);
    assert_eq!(f.message(), "no modules specified");
}

#[test]
fn no_file_fails_with_status_one() {
    let f = chisel_oneliner(flags(Some("a,b"), None)).unwrap_err();
    assert!(matches!(f, Failure::NoFile));
    assert_eq!(f.exit_code(), 1);
    assert_eq!(f.message(), "No file specified");
}

#[test]
fn debug_switch_must_be_true_or_false() {
    let mut fl = flags(Some("a"), Some("in"));
    fl.debugging = Some("yes".to_string());
    let f = chisel_oneliner(fl).unwrap_err();
    assert!(matches!(f, Failure::BadDebugLevel));
    assert_eq!(f.message(), "util.debugging must be set 'true' or 'false'");
    let mut fl = flags(Some("a"), Some("in"));
    fl.debugging = None;
    assert!(matches!(chisel_oneliner(fl), Err(Failure::BadDebugLevel)));
    let mut fl = flags(Some("a"), Some("in"));
    fl.debugging = Some("true".to_string());
    assert_eq!(chisel_oneliner(fl).unwrap().log_level, 1);
}

#[test]
fn output_and_options_are_passed_on() {
    let mut fl = flags(Some("a"), Some("in.wasm"));
    fl.output = Some("out.wasm".to_string());
    fl.module_options = Some("a.preset=ewasm".to_string());
    let setup = chisel_oneliner(fl).unwrap();
    let o = &setup.config.rulesets()[0].options;
    assert_eq!(o.get("output"), Some("out.wasm".to_string()));
    assert_eq!(o.get("file"), Some("in.wasm".to_string()));
    assert_eq!(o.get("preset"), Some("ewasm".to_string()));
}

#[test]
fn malformed_spec_fails_with_description() {
    let mut fl = flags(Some("a"), Some("in"));
    fl.module_options = Some("a.x".to_string());
    let f = chisel_oneliner(fl).unwrap_err();
    match &f {
        Failure::BadSpec(e) => assert_eq!(e.kind, ParseErrorKind::MissingValue),
        _ => panic!("expected a parse failure"),
    }
    assert_eq!(f.exit_code(), 1);
    assert_eq!(f.message(), "Failed to load configuration: option without '=': a.x");
}

#[test]
fn engine_error_is_handed_on() {
    let mut adapter = DriverAdapter::new();
    let d = adapter.observe(DriverState::Error { cause: "trap".to_string(), partial: "step 3".to_string() });
    match d {
        Decision::Fail { cause, partial } => {
            assert_eq!(cause, "trap");
            assert_eq!(partial, "step 3");
            let f = Failure::Engine { cause, partial };
            assert_eq!(f.message(), "runtime error: trap");
            assert_eq!(f.exit_code(), 1);
        }
        _ => panic!("expected a failure"),
    }
    assert_eq!(adapter.phase(), Phase::Failed);
    assert!(matches!(adapter.observe(DriverState::Done), Decision::Defect));
    assert_eq!(adapter.phase(), Phase::Failed);
}

#[test]
fn nothing_continues_after_done() {
    let mut adapter = DriverAdapter::new();
    assert_eq!(adapter.phase(), Phase::Running);
    assert!(matches!(adapter.observe(DriverState::Done), Decision::Collect));
    assert!(matches!(adapter.observe(DriverState::Continuing), Decision::Defect));
    assert!(matches!(
        adapter.observe(DriverState::Error { cause: String::new(), partial: String::new() }),
        Decision::Defect
    ));
    assert_eq!(adapter.phase(), Phase::Finished);
}

#[test]
fn mode_names() {
    assert_eq!(OutputMode::from_name("bin"), Some(OutputMode::Bin));
    assert_eq!(OutputMode::from_name("wat"), Some(OutputMode::Wat));
    assert_eq!(OutputMode::from_name("hex"), Some(OutputMode::Hex));
    assert_eq!(OutputMode::from_name("HEX"), None);
    assert_eq!(OutputMode::from_name(""), None);
}

#[test]
fn encodings() {
    let bin = vec![0xab, 0x01, 0xff];
    let text = b"(module)".to_vec();
    assert_eq!(encode_output(OutputMode::Bin, &bin, &text), bin);
    assert_eq!(encode_output(OutputMode::Wat, &bin, &text), text);
    assert_eq!(encode_output(OutputMode::Hex, &bin, &text), b"ab01ff".to_vec());
    assert_eq!(hex_encode(&Vec::new()), Vec::<u8>::new());
    assert_eq!(hex_encode(&vec![0x09, 0x0a, 0x90]), b"090a90".to_vec());
}

#[test]
fn identical_bytes_are_not_written() {
    let bytes = b"0061736d".to_vec();
    let prior = bytes.clone();
    assert_eq!(plan_write(&bytes, Some(&prior)), WriteAction::Unchanged);
    assert_eq!(prior, b"0061736d".to_vec());
    assert_eq!(plan_write(&bytes, Some(&b"0061736e".to_vec())), WriteAction::Write);
    assert_eq!(plan_write(&bytes, Some(&b"0061".to_vec())), WriteAction::Write);
    assert_eq!(plan_write(&Vec::new(), Some(&Vec::new())), WriteAction::Unchanged);
    assert_eq!(write_report(Ok(false)).unwrap(), "No changes to write.");
}

#[test]
fn write_failure_is_reported() {
    let f = write_report(Err("permission denied".to_string())).unwrap_err();
    assert_eq!(f.exit_code(), 1);
    assert_eq!(f.message(), "failed to write output to file: permission denied");
}
