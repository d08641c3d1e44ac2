use solsa::solium::parse_solium_response;

#[test]
fn gcc_style_line_parses() {
    let issues = parse_solium_response("contracts/A.sol:12:4:warning:Use of var");
    assert_eq!(issues.len(), 1);
    assert_eq!(issues[0].filename, "contracts/A.sol");
    assert_eq!(issues[0].line, 12);
    assert_eq!(issues[0].column, 4);
    assert_eq!(issues[0].type_, "warning");
    assert_eq!(issues[0].message, "Use of var");
}

#[test]
fn message_keeps_embedded_colons() {
    let issues = parse_solium_response("a.sol:1:2:error:bad thing: really: truly");
    assert_eq!(issues.len(), 1);
    assert_eq!(issues[0].message, "bad thing: really: truly");
}

#[test]
fn three_colons_yield_nothing() {
    let issues = parse_solium_response("a.sol:1:2:almost an issue");
    assert_eq!(issues.len(), 0);
}

#[test]
fn empty_output_is_clean() {
    let issues = parse_solium_response("");
    assert_eq!(issues.len(), 0);
}

#[test]
fn mixed_lines_keep_only_wellformed() {
    let text = "junk\na.sol:1:1:warning:w1\n\nnot:enough:colons\nb.sol:2:3:error:w2\n";
    let issues = parse_solium_response(text);
    assert_eq!(issues.len(), 2);
    assert_eq!(issues[0].filename, "a.sol");
    assert_eq!(issues[0].message, "w1");
    assert_eq!(issues[1].filename, "b.sol");
    assert_eq!(issues[1].line, 2);
    assert_eq!(issues[1].column, 3);
    assert_eq!(issues[1].message, "w2");
}

#[test]
fn carriage_returns_are_stripped() {
    let issues = parse_solium_response("a.sol:7:8:warning:w\r\nb.sol:9:10:error:x\r\n");
    assert_eq!(issues.len(), 2);
    assert_eq!(issues[0].line, 7);
    assert_eq!(issues[1].message, "x");
}

#[test]
fn bad_numbers_fall_back_to_zero() {
    let issues = parse_solium_response("a.sol:abc:-3:warning:w");
    assert_eq!(issues.len(), 1);
    assert_eq!(issues[0].line, 0);
    assert_eq!(issues[0].column, 0);
}

#[test]
fn overflowing_number_falls_back_to_zero() {
    let issues = parse_solium_response("a.sol:99999999999999999999:5:warning:w");
    assert_eq!(issues.len(), 1);
    assert_eq!(issues[0].line, 0);
    assert_eq!(issues[0].column, 5);
}

#[test]
fn plus_prefixed_number_is_accepted() {
    let issues = parse_solium_response("a.sol:+12:+0:warning:w");
    assert_eq!(issues.len(), 1);
    assert_eq!(issues[0].line, 12);
    assert_eq!(issues[0].column, 0);
}

#[test]
fn empty_message_after_fourth_colon() {
    let issues = parse_solium_response("a.sol:1:2:warning:");
    assert_eq!(issues.len(), 1);
    assert_eq!(issues[0].message, "");
}
