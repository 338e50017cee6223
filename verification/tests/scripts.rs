use control_channel::scripts::{
    backend_dir, dependency_probe, dependency_report, exit_report, is_run_record, plain_path,
    runs_document, script_file, script_report, tabular_args, Attempt, Fallback, Script,
};

fn s(text: &str) -> String {
    String::from(text)
}

#[test]
fn script_files() {
    assert_eq!(backend_dir(), "python_backend");
    assert_eq!(script_file(Script::TabularProcessor), "tabular_processor.py");
    assert_eq!(script_file(Script::CheckGpu), "check_gpu.py");
    assert_eq!(script_file(Script::SystemInfo), "system_info.py");
    assert_eq!(script_file(Script::DatasetAnalyzer), "dataset_analyzer.py");
}

#[test]
fn plain_path_drops_the_verbatim_marker() {
    assert_eq!(plain_path("\\\\?\\C:\\app\\check_gpu.py"), "C:\\app\\check_gpu.py");
    assert_eq!(plain_path("/opt/app/check_gpu.py"), "/opt/app/check_gpu.py");
    assert_eq!(plain_path(""), "");
}

#[test]
fn tabular_args_without_options() {
    let args = tabular_args(s("tp.py"), s("profile"), s("data.csv"), None, None);
    assert_eq!(args, vec!["tp.py", "--action", "profile", "--file", "data.csv"]);
}

#[test]
fn tabular_args_with_options() {
    let args = tabular_args(s("tp.py"), s("clean"), s("d.csv"), Some(s("{}")), Some(s("o.csv")));
    assert_eq!(
        args,
        vec!["tp.py", "--action", "clean", "--file", "d.csv", "--params", "{}", "--out", "o.csv"]
    );
    let args = tabular_args(s("tp.py"), s("clean"), s("d.csv"), None, Some(s("o.csv")));
    assert_eq!(args, vec!["tp.py", "--action", "clean", "--file", "d.csv", "--out", "o.csv"]);
    let args = tabular_args(s("tp.py"), s("clean"), s("d.csv"), Some(s("p")), None);
    assert_eq!(args, vec!["tp.py", "--action", "clean", "--file", "d.csv", "--params", "p"]);
}

#[test]
fn exit_report_prefers_the_error_output() {
    assert_eq!(exit_report(Some(1), s("out"), s("boom\n")), "boom\n");
    assert_eq!(exit_report(Some(1), s("out\n"), s("  \n\t")), "out\n");
    assert_eq!(exit_report(Some(2), s(" \u{3000}\u{a0}"), s("")), "Exited with code: 2");
    assert_eq!(exit_report(None, s(""), s("")), "Exited with code: -1");
    assert_eq!(exit_report(Some(-9), s("\n"), s("\r\n")), "Exited with code: -9");
    assert_eq!(exit_report(Some(1), s("\u{200b}"), s("")), "\u{200b}");
}

#[test]
fn fallback_tries_the_three_interpreters_in_order() {
    let mut search = Fallback::new();
    assert_eq!(search.next_command(), Some("python"));
    assert_eq!(search.record(Attempt::NotStarted { error: s("not found") }), None);
    assert_eq!(search.next_command(), Some("python3"));
    let failed = Attempt::Exited { success: false, code: Some(3), stdout: s(""), stderr: s("bad") };
    assert_eq!(search.record(failed), None);
    assert_eq!(search.next_command(), Some("py"));
    let failed = Attempt::Exited { success: false, code: Some(7), stdout: s(""), stderr: s("") };
    assert_eq!(search.record(failed), None);
    assert_eq!(search.next_command(), None);
    assert_eq!(search.into_error(), "Exited with code: 7");
}

#[test]
fn fallback_ends_with_the_first_success() {
    let mut search = Fallback::new();
    assert_eq!(search.record(Attempt::NotStarted { error: s("no python") }), None);
    let ran = Attempt::Exited { success: true, code: Some(0), stdout: s("ok\n"), stderr: s("warn") };
    assert_eq!(search.record(ran), Some(s("ok\n")));
    assert_eq!(search.next_command(), Some("python3"));
    assert_eq!(search.into_error(), "no python");
}

#[test]
fn fallback_without_attempts_has_no_error() {
    assert_eq!(Fallback::new().into_error(), "");
}

#[test]
fn script_report_trims_the_output() {
    assert_eq!(script_report(Script::CheckGpu, Ok(s("  cuda:0\n"))), Ok(s("cuda:0")));
    assert_eq!(script_report(Script::SystemInfo, Ok(s("\n\n"))), Ok(s("")));
    assert_eq!(script_report(Script::DatasetAnalyzer, Ok(s("a b"))), Ok(s("a b")));
}

#[test]
fn script_report_labels_the_failure() {
    assert_eq!(
        script_report(Script::CheckGpu, Err(s("no python"))),
        Err(s("GPU detection failed: no python"))
    );
    assert_eq!(
        script_report(Script::SystemInfo, Err(s("x"))),
        Err(s("System info failed: x"))
    );
    assert_eq!(
        script_report(Script::DatasetAnalyzer, Err(s("x"))),
        Err(s("Dataset analysis failed: x"))
    );
}

#[test]
fn script_report_leaves_the_tabular_processor_alone() {
    assert_eq!(script_report(Script::TabularProcessor, Err(s("x"))), Err(s("x")));
    assert_eq!(script_report(Script::TabularProcessor, Ok(s(" {}\n"))), Ok(s(" {}\n")));
}

#[test]
fn dependency_report_of_a_run_is_its_trimmed_output() {
    assert_eq!(dependency_report(Ok(s("{\"python\": true}\n"))), "{\"python\": true}");
}

#[test]
fn dependency_report_of_a_failure_quotes_the_error() {
    let report = dependency_report(Err(s("no \"python\"\nfound")));
    assert_eq!(
        report,
        "{\"python\": false, \"version\": null, \"pandas\": false, \"sklearn\": false, \"torch\": false, \"timm\": false, \"optuna\": false, \"error\": \"no \\\"python\\\" found\"}"
    );
    let value: serde_json::Value = serde_json::from_str(&report).unwrap();
    assert_eq!(value.get("error").and_then(|v| v.as_str()), Some("no \"python\" found"));
    assert_eq!(value.get("python").and_then(|v| v.as_bool()), Some(false));
}

#[test]
fn dependency_probe_prints_json() {
    assert!(dependency_probe().starts_with("import sys, json, importlib.util;"));
    assert!(dependency_probe().ends_with("'optuna': p('optuna')}))"));
}

#[test]
fn run_records_have_the_json_extension() {
    assert!(is_run_record(Some("json")));
    assert!(!is_run_record(Some("JSON")));
    assert!(!is_run_record(Some("txt")));
    assert!(!is_run_record(Some("")));
    assert!(!is_run_record(None));
}

#[test]
fn runs_document_is_an_array_of_the_records() {
    assert_eq!(runs_document(&vec![]), "[]");
    assert_eq!(runs_document(&vec![s("{\"id\":1}")]), "[{\"id\":1}]");
    assert_eq!(runs_document(&vec![s("{\"id\":1}"), s("{\"id\":2}"), s("3")]), "[{\"id\":1},{\"id\":2},3]");
    assert_eq!(runs_document(&vec![s(""), s("")]), "[,]");
}

#[test]
fn fallback_keeps_the_last_report_after_the_candidates_ran_out() {
    let mut search = Fallback::new();
    for round in 0..5 {
        let error = format!("failure {}", round);
        assert_eq!(search.record(Attempt::NotStarted { error }), None);
    }
    assert_eq!(search.next_command(), None);
    assert_eq!(search.into_error(), "failure 4");
}
