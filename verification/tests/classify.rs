use solsa::tools::{
    run_mythril, run_oyente, run_solc, run_solium, MythrilResponse, OyenteResponse, RawOutput,
    SolcResponse, SoliumResponse,
};

fn captured(success: bool, stdout: &str, stderr: &str) -> RawOutput {
    RawOutput {
        success,
        stdout: stdout.as_bytes().to_vec(),
        stderr: stderr.as_bytes().to_vec(),
    }
}

const SOLC_DOC: &str = "{\"contracts\":{\"Empty.sol:E\":{\"abi\":\"[]\",\"bin\":\"6060\"}},\"version\":\"0.4.24\"}";

const MYTHRIL_DOC: &str = "{\"success\":true,\"error\":null,\"issues\":[{\"title\":\"Reentrancy\",\"description\":\"d\",\"type\":\"Warning\",\"code\":\"c\",\"function\":\"f\",\"debug\":\"g\",\"filename\":\"C.sol\",\"lineno\":10,\"address\":164}]}";

const OYENTE_DOC: &str = "{\"C.sol\":{\"C\":{\"evm_code_coverage\":\"99.2%\",\"vulnerabilities\":{\"integer_overflow\":[],\"integer_underflow\":[],\"callstack\":[],\"money_concurrency\":[],\"time_dependency\":[],\"reentrancy\":[\"C.sol:12\"],\"assertion_failure\":[],\"parity_multisig_bug_2\":[]}}}}";

#[test]
fn solc_success_decodes() {
    match run_solc(Some(captured(true, SOLC_DOC, ""))) {
        Some(SolcResponse::Success(o)) => {
            assert_eq!(o.version, "0.4.24");
            assert_eq!(o.contracts.len(), 1);
            assert_eq!(o.contracts[0].0, "Empty.sol:E");
            assert_eq!(o.contracts[0].1.abi, "[]");
            assert_eq!(o.contracts[0].1.bin, "6060");
        }
        _ => panic!("expected a success"),
    }
}

#[test]
fn solc_undecodable_output_is_absent() {
    assert!(run_solc(Some(captured(true, "not json", ""))).is_none());
    assert!(run_solc(Some(captured(true, "{\"version\":3}", ""))).is_none());
}

#[test]
fn solc_nonzero_exit_reports_stderr() {
    match run_solc(Some(captured(false, "", "ParserError: line 3"))) {
        Some(SolcResponse::Failure(m)) => assert_eq!(m, "ParserError: line 3"),
        _ => panic!("expected a failure"),
    }
}

#[test]
fn solc_launch_failure_is_absent() {
    assert!(run_solc(None).is_none());
}

#[test]
fn mythril_success_decodes() {
    match run_mythril(Some(captured(true, MYTHRIL_DOC, ""))) {
        Some(MythrilResponse::Success(o)) => {
            assert!(o.success);
            assert!(o.error.is_none());
            assert_eq!(o.issues.len(), 1);
            assert_eq!(o.issues[0].title, "Reentrancy");
            assert_eq!(o.issues[0].lineno, 10);
            assert_eq!(o.issues[0].address, 164);
        }
        _ => panic!("expected a success"),
    }
}

#[test]
fn mythril_missing_error_member_is_none() {
    let doc = "{\"success\":false,\"issues\":[]}";
    match run_mythril(Some(captured(true, doc, ""))) {
        Some(MythrilResponse::Success(o)) => {
            assert!(!o.success);
            assert!(o.error.is_none());
            assert!(o.issues.is_empty());
        }
        _ => panic!("expected a success"),
    }
}

#[test]
fn mythril_bad_document_is_deserialization_failure() {
    match run_mythril(Some(captured(true, "[]", ""))) {
        Some(MythrilResponse::Failure(m)) => {
            assert!(m.starts_with("Error deserializing:"));
        }
        _ => panic!("expected a failure"),
    }
}

#[test]
fn mythril_nonzero_exit_reports_stderr() {
    match run_mythril(Some(captured(false, "", "boom"))) {
        Some(MythrilResponse::Failure(m)) => assert_eq!(m, "boom"),
        _ => panic!("expected a failure"),
    }
}

#[test]
fn mythril_invalid_utf8_stderr_is_unknown_error() {
    let out = RawOutput {
        success: false,
        stdout: Vec::new(),
        stderr: vec![0xff, 0xfe],
    };
    match run_mythril(Some(out)) {
        Some(MythrilResponse::Failure(m)) => assert_eq!(m, "Unknown error"),
        _ => panic!("expected a failure"),
    }
}

#[test]
fn oyente_nonzero_exit_with_parseable_output_is_success_with_issues() {
    match run_oyente(Some(captured(false, OYENTE_DOC, ""))) {
        Some(OyenteResponse::Success(o, issues_flag)) => {
            assert!(issues_flag);
            assert_eq!(o.files.len(), 1);
            assert_eq!(o.files[0].0, "C.sol");
            let contract = &o.files[0].1.contracts[0];
            assert_eq!(contract.0, "C");
            assert_eq!(contract.1.evm_code_coverage, "99.2%");
            assert_eq!(contract.1.vulnerabilities.reentrancy, vec!["C.sol:12"]);
            assert!(contract.1.vulnerabilities.integer_overflow.is_empty());
        }
        _ => panic!("expected a success"),
    }
}

#[test]
fn oyente_zero_exit_clears_issues_flag() {
    match run_oyente(Some(captured(true, OYENTE_DOC, ""))) {
        Some(OyenteResponse::Success(_, issues_flag)) => assert!(!issues_flag),
        _ => panic!("expected a success"),
    }
}

#[test]
fn oyente_undecodable_output_is_failure() {
    match run_oyente(Some(captured(false, "traceback...", "err"))) {
        Some(OyenteResponse::Failure(m)) => assert!(m.starts_with("Error deserializing:")),
        _ => panic!("expected a failure"),
    }
}

#[test]
fn solium_zero_exit_with_clean_output_is_empty_success() {
    match run_solium(Some(captured(true, "", ""))) {
        Some(SoliumResponse::Success(l)) => assert!(l.is_empty()),
        _ => panic!("expected a success"),
    }
}

#[test]
fn solium_zero_exit_parses_issues() {
    match run_solium(Some(captured(true, "a.sol:1:2:warning:w\n", ""))) {
        Some(SoliumResponse::Success(l)) => {
            assert_eq!(l.len(), 1);
            assert_eq!(l[0].message, "w");
        }
        _ => panic!("expected a success"),
    }
}

#[test]
fn solium_nonzero_exit_with_issues_is_still_success() {
    match run_solium(Some(captured(false, "a.sol:1:2:error:e\n", "ignored"))) {
        Some(SoliumResponse::Success(l)) => assert_eq!(l.len(), 1),
        _ => panic!("expected a success"),
    }
}

#[test]
fn solium_nonzero_exit_without_issues_concatenates_streams() {
    match run_solium(Some(captured(false, "usage: solium", " -- failed"))) {
        Some(SoliumResponse::Failure(m)) => assert_eq!(m, "usage: solium -- failed"),
        _ => panic!("expected a failure"),
    }
}

#[test]
fn solium_nonzero_exit_with_invalid_utf8_stdout_is_absent() {
    let out = RawOutput {
        success: false,
        stdout: vec![0xff],
        stderr: Vec::new(),
    };
    assert!(run_solium(Some(out)).is_none());
}

#[test]
fn solium_launch_failure_is_absent() {
    assert!(run_solium(None).is_none());
}
