use wakeful::scripts::{
    check_option_value, check_tail, load_script_file, say_option, world_script_files, OptionValue, SayOption, ScriptLoad,
};

fn compile(text: String) -> Result<usize, String> {
    if text.contains("fn ") {
        Ok(text.len())
    } else {
        Err(format!("no function in {} bytes", text.len()))
    }
}

#[test]
fn load_reads_a_shipped_script_and_missing_paths_warn_to_none() {
    let text = "fn on_update(x, z, px, pz, dt) { }".to_string();
    match load_script_file("scripts/test.rhai", "Actor", Ok(text.clone()), compile) {
        ScriptLoad::Ready(n) => assert_eq!(n, text.len()),
        ScriptLoad::Skipped(w) => panic!("unexpected warning {w}"),
    }
    match load_script_file("scripts/does-not-exist.rhai", "Actor", Err("not found".to_string()), compile) {
        ScriptLoad::Ready(_) => panic!("a missing file cannot load"),
        ScriptLoad::Skipped(w) => assert_eq!(
            w,
            "Actor script scripts/does-not-exist.rhai could not be read, content runs without it: not found"
        ),
    }
}

#[test]
fn a_script_that_fails_to_compile_is_skipped_with_a_warning() {
    match load_script_file("scripts/broken.rhai", "Scene", Ok("let x = ;".to_string()), compile) {
        ScriptLoad::Ready(_) => panic!("a broken script cannot load"),
        ScriptLoad::Skipped(w) => assert_eq!(
            w,
            "Scene script scripts/broken.rhai failed to compile, content runs without it: no function in 9 bytes"
        ),
    }
}

#[test]
fn an_unknown_say_option_is_a_runtime_error() {
    assert_eq!(say_option("colour"), Err("unknown option 'colour'".to_string()));
    assert_eq!(say_option("Wait"), Err("unknown option 'Wait'".to_string()));
}

#[test]
fn say_options_name_placement_tail_timing_and_waiting() {
    assert_eq!(say_option("at"), Ok(SayOption::At));
    assert_eq!(say_option("tail"), Ok(SayOption::Tail));
    assert_eq!(say_option("no_tail"), Ok(SayOption::NoTail));
    assert_eq!(say_option("wait"), Ok(SayOption::Wait));
    assert_eq!(say_option("ttl"), Ok(SayOption::Ttl));
}

#[test]
fn tail_and_no_tail_conflict() {
    assert_eq!(check_tail(true, true), Err("'tail' and 'no_tail' cannot be combined".to_string()));
    assert_eq!(check_tail(true, false), Ok(()));
    assert_eq!(check_tail(false, true), Ok(()));
}

#[test]
fn only_rhai_files_are_world_scripts_in_name_order() {
    let names: Vec<String> = ["party.rhai", "menu.rhai", "notes.txt", ".rhai", "a.rhai.bak", "x.y.rhai", "rhai"]
        .iter()
        .map(|s| s.to_string())
        .collect();
    assert_eq!(world_script_files(&names), vec!["menu.rhai", "party.rhai", "x.y.rhai"]);
}

#[test]
fn an_empty_listing_has_no_world_scripts() {
    assert!(world_script_files(&[]).is_empty());
}

#[test]
fn option_values_must_have_the_right_kind() {
    assert_eq!(check_option_value(SayOption::At, "at", &OptionValue::Array(vec![true, true])), Ok(()));
    assert_eq!(
        check_option_value(SayOption::At, "at", &OptionValue::Array(vec![true])),
        Err("'at' must be an [x, y] array".to_string())
    );
    assert_eq!(
        check_option_value(SayOption::Tail, "tail", &OptionValue::Array(vec![true, false])),
        Err("'tail' must contain numbers".to_string())
    );
    assert_eq!(
        check_option_value(SayOption::Tail, "tail", &OptionValue::Number),
        Err("'tail' must be an [x, y] array".to_string())
    );
    assert_eq!(check_option_value(SayOption::Wait, "wait", &OptionValue::Bool), Ok(()));
    assert_eq!(
        check_option_value(SayOption::NoTail, "no_tail", &OptionValue::Number),
        Err("'no_tail' must be a bool".to_string())
    );
    assert_eq!(check_option_value(SayOption::Ttl, "ttl", &OptionValue::Number), Ok(()));
    assert_eq!(
        check_option_value(SayOption::Ttl, "ttl", &OptionValue::Other),
        Err("'ttl' must be a number".to_string())
    );
}
