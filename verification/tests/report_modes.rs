use solsa::json::{parse_json, to_json_string, Json};
use solsa::report::{
    assemble_report, default_output_path, docker_available, docker_candidates,
    docker_missing_message, problematic_tools, report_to_json, select_output_mode, solsa_version,
    summary_line, OperatorError, OutputMode, Report,
};
use solsa::tool_output::{MythrilOutput, OyenteOutput};
use solsa::tools::{MythrilResponse, OyenteResponse, SolcResponse, SoliumResponse};
use solsa::solium::SoliumIssue;

fn sample_issue() -> SoliumIssue {
    SoliumIssue {
        filename: "a.sol".to_string(),
        line: 1,
        column: 2,
        type_: "warning".to_string(),
        message: "w".to_string(),
    }
}

fn clean_mythril() -> MythrilOutput {
    MythrilOutput {
        success: true,
        error: None,
        issues: Vec::new(),
    }
}

fn empty_report() -> Report {
    assemble_report(
        "Empty.sol".to_string(),
        None,
        None,
        None,
        None,
        None,
        solsa_version(),
    )
}

fn clean_report() -> Report {
    let mut r = empty_report();
    r.solc = Some(SolcResponse::Failure("e".to_string()));
    r.solium = Some(SoliumResponse::Success(Vec::new()));
    r.mythril = Some(MythrilResponse::Success(clean_mythril()));
    r.oyente = Some(OyenteResponse::Success(OyenteOutput { files: Vec::new() }, false));
    r.solc = Some(SolcResponse::Success(solsa::tool_output::SolcOutput {
        contracts: Vec::new(),
        version: "0.4.24".to_string(),
    }));
    r
}

#[test]
fn report_json_has_one_entry_per_tool() {
    let text = to_json_string(&report_to_json(&empty_report()));
    let doc = parse_json(&text).unwrap();
    match doc {
        Json::Obj(ps) => {
            let keys: Vec<&str> = ps.iter().map(|p| p.0.as_str()).collect();
            assert_eq!(
                keys,
                vec!["solc", "solium", "mythril", "oyente", "source", "solsa_version"]
            );
        }
        _ => panic!("expected an object"),
    }
}

#[test]
fn report_json_is_valid_for_other_readers() {
    let mut r = clean_report();
    r.solium = Some(SoliumResponse::Success(vec![sample_issue()]));
    let text = to_json_string(&report_to_json(&r));
    let doc: serde_json::Value = serde_json::from_str(&text).unwrap();
    assert_eq!(doc["solc"]["error"], serde_json::Value::Bool(false));
    assert_eq!(doc["source"], serde_json::Value::Null);
    assert_eq!(
        doc["solsa_version"],
        serde_json::Value::String("0.1.0".to_string())
    );
    assert_eq!(doc["solium"]["result"][0]["line"].as_u64(), Some(1));
    assert_eq!(
        doc["solium"]["result"][0]["message"],
        serde_json::Value::String("w".to_string())
    );
}

#[test]
fn absent_tool_maps_to_empty_result_without_error() {
    let text = to_json_string(&report_to_json(&empty_report()));
    let doc: serde_json::Value = serde_json::from_str(&text).unwrap();
    for tool in ["solc", "solium", "mythril", "oyente"] {
        assert_eq!(doc[tool]["error"], serde_json::Value::Bool(false));
        assert_eq!(doc[tool]["result"], serde_json::Value::String(String::new()));
    }
}

#[test]
fn failure_maps_to_error_entry() {
    let mut r = empty_report();
    r.mythril = Some(MythrilResponse::Failure("boom".to_string()));
    let text = to_json_string(&report_to_json(&r));
    let doc: serde_json::Value = serde_json::from_str(&text).unwrap();
    assert_eq!(doc["mythril"]["error"], serde_json::Value::Bool(true));
    assert_eq!(
        doc["mythril"]["result"],
        serde_json::Value::String("boom".to_string())
    );
}

#[test]
fn clean_report_has_no_issues() {
    let r = clean_report();
    assert!(problematic_tools(&r).is_empty());
    assert_eq!(summary_line(&r), "No issues found");
}

#[test]
fn empty_solium_list_is_not_reported() {
    let mut r = clean_report();
    r.solium = Some(SoliumResponse::Success(Vec::new()));
    let names = problematic_tools(&r);
    assert!(!names.iter().any(|n| n == "solium"));
}

#[test]
fn nonempty_solium_list_is_reported() {
    let mut r = clean_report();
    r.solium = Some(SoliumResponse::Success(vec![sample_issue()]));
    let names = problematic_tools(&r);
    assert_eq!(names, vec!["solium"]);
    assert_eq!(summary_line(&r), "Issues found in solium");
}

#[test]
fn mythril_unsuccessful_report_is_reported_as_mythril() {
    let mut r = clean_report();
    r.mythril = Some(MythrilResponse::Success(MythrilOutput {
        success: false,
        error: Some("e".to_string()),
        issues: Vec::new(),
    }));
    r.oyente = Some(OyenteResponse::Success(OyenteOutput { files: Vec::new() }, true));
    let names = problematic_tools(&r);
    assert_eq!(names, vec!["mythril", "oyente"]);
    assert_eq!(summary_line(&r), "Issues found in mythril, oyente");
}

#[test]
fn absent_and_failed_tools_are_all_reported() {
    let mut r = empty_report();
    r.solc = Some(SolcResponse::Failure("a".to_string()));
    r.solium = Some(SoliumResponse::Failure("b".to_string()));
    let names = problematic_tools(&r);
    assert_eq!(names, vec!["solc", "solium", "mythril", "oyente"]);
    assert_eq!(
        summary_line(&r),
        "Issues found in solc, solium, mythril, oyente"
    );
}

#[test]
fn two_output_modes_conflict() {
    assert_eq!(
        select_output_mode(true, true, false, false, false),
        Err(OperatorError::ConflictingOutputModes)
    );
    assert_eq!(
        select_output_mode(true, false, true, false, false),
        Err(OperatorError::ConflictingOutputModes)
    );
    assert_eq!(
        select_output_mode(false, true, true, false, false),
        Err(OperatorError::ConflictingOutputModes)
    );
}

#[test]
fn single_modes_are_accepted_with_html_default() {
    assert_eq!(
        select_output_mode(false, false, false, false, false),
        Ok(OutputMode::Html)
    );
    assert_eq!(
        select_output_mode(true, false, false, true, false),
        Ok(OutputMode::Html)
    );
    assert_eq!(
        select_output_mode(false, true, false, true, false),
        Ok(OutputMode::Json)
    );
    assert_eq!(
        select_output_mode(false, false, true, false, true),
        Ok(OutputMode::Silent)
    );
}

#[test]
fn output_path_conflicts_with_silent() {
    assert_eq!(
        select_output_mode(false, false, true, true, false),
        Err(OperatorError::OutputPathWithSilent)
    );
}

#[test]
fn error_exit_requires_silent() {
    assert_eq!(
        select_output_mode(false, false, false, false, true),
        Err(OperatorError::ErrorExitWithoutSilent)
    );
}

#[test]
fn docker_probe_candidates_and_absence() {
    let cands = docker_candidates("/usr/bin:/bin");
    assert_eq!(cands, vec!["/usr/bin/docker", "/bin/docker"]);
    let cands2 = docker_candidates("");
    assert_eq!(cands2, vec!["/docker"]);
    assert!(!docker_available(&vec![false, false]));
    assert!(docker_available(&vec![false, true]));
    assert!(!docker_available(&Vec::new()));
    let msg = docker_missing_message();
    assert!(msg.contains("Docker"));
}

#[test]
fn default_document_name() {
    assert_eq!(default_output_path(), "index.html");
    assert_eq!(solsa_version(), "0.1.0");
}

#[test]
fn docker_probe_keeps_empty_path_entries() {
    let cands = docker_candidates("/usr/bin::/bin:");
    assert_eq!(
        cands,
        vec!["/usr/bin/docker", "/docker", "/bin/docker", "/docker"]
    );
}
