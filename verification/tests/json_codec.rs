use solsa::json::{parse_json, to_json_string, Json};

fn json_eq(a: &Json, b: &Json) -> bool {
    match (a, b) {
        (Json::Null, Json::Null) => true,
        (Json::Bool(x), Json::Bool(y)) => x == y,
        (Json::Num(x), Json::Num(y)) => x == y,
        (Json::Str(x), Json::Str(y)) => x == y,
        (Json::Arr(xs), Json::Arr(ys)) => {
            xs.len() == ys.len() && xs.iter().zip(ys.iter()).all(|(x, y)| json_eq(x, y))
        }
        (Json::Obj(xs), Json::Obj(ys)) => {
            xs.len() == ys.len()
                && xs
                    .iter()
                    .zip(ys.iter())
                    .all(|(x, y)| x.0 == y.0 && json_eq(&x.1, &y.1))
        }
        _ => false,
    }
}

#[test]
fn parses_simple_object() {
    let j = parse_json(" {\"a\": 1, \"b\": [true, null, \"x\"]} ").unwrap();
    match &j {
        Json::Obj(ps) => {
            assert_eq!(ps.len(), 2);
            assert_eq!(ps[0].0, "a");
            match &ps[0].1 {
                Json::Num(t) => assert_eq!(t, "1"),
                _ => panic!("expected a number"),
            }
            assert_eq!(ps[1].0, "b");
            match &ps[1].1 {
                Json::Arr(es) => {
                    assert_eq!(es.len(), 3);
                    assert!(matches!(es[0], Json::Bool(true)));
                    assert!(matches!(es[1], Json::Null));
                    match &es[2] {
                        Json::Str(s) => assert_eq!(s, "x"),
                        _ => panic!("expected a string"),
                    }
                }
                _ => panic!("expected an array"),
            }
        }
        _ => panic!("expected an object"),
    }
}

#[test]
fn parses_escapes() {
    let j = parse_json("\"a\\n\\t\\\\\\\"\\u0041\\u00e9\"").unwrap();
    match &j {
        Json::Str(s) => assert_eq!(s, "a\n\t\\\"A\u{e9}"),
        _ => panic!("expected a string"),
    }
}

#[test]
fn rejects_malformed_documents() {
    assert!(parse_json("").is_none());
    assert!(parse_json("{").is_none());
    assert!(parse_json("[1,]").is_none());
    assert!(parse_json("{\"a\" 1}").is_none());
    assert!(parse_json("nul").is_none());
    assert!(parse_json("1 2").is_none());
    assert!(parse_json("\"unterminated").is_none());
}

#[test]
fn number_tokens_kept_verbatim() {
    let j = parse_json("[1, -2.5, 1e10, 0.25]").unwrap();
    match &j {
        Json::Arr(es) => {
            let toks: Vec<&str> = es
                .iter()
                .map(|e| match e {
                    Json::Num(t) => t.as_str(),
                    _ => panic!("expected a number"),
                })
                .collect();
            assert_eq!(toks, vec!["1", "-2.5", "1e10", "0.25"]);
        }
        _ => panic!("expected an array"),
    }
}

#[test]
fn serializes_compactly() {
    let j = parse_json("{ \"a\" : [ 1 , true ] }").unwrap();
    assert_eq!(to_json_string(&j), "{\"a\":[1,true]}");
}

#[test]
fn round_trip_preserves_structure() {
    let mut members: Vec<(String, Json)> = Vec::new();
    members.push(("plain".to_string(), Json::Str("hello".to_string())));
    members.push((
        "weird\"key\\here".to_string(),
        Json::Str("line\nbreak and \u{1} control".to_string()),
    ));
    members.push(("num".to_string(), Json::Num("-12.75".to_string())));
    members.push((
        "list".to_string(),
        Json::Arr(vec![Json::Null, Json::Bool(false), Json::Obj(Vec::new())]),
    ));
    members.push(("empty".to_string(), Json::Arr(Vec::new())));
    let doc = Json::Obj(members);
    let text = to_json_string(&doc);
    let back = parse_json(&text).unwrap();
    assert!(json_eq(&doc, &back));
    assert_eq!(to_json_string(&back), text);
}

#[test]
fn emitted_text_is_json_for_other_readers() {
    let mut members: Vec<(String, Json)> = Vec::new();
    members.push(("k".to_string(), Json::Str("v\n\"q\"".to_string())));
    members.push(("n".to_string(), Json::Num("7".to_string())));
    let doc = Json::Obj(members);
    let text = to_json_string(&doc);
    let parsed: serde_json::Value = serde_json::from_str(&text).unwrap();
    assert_eq!(parsed["k"], serde_json::Value::String("v\n\"q\"".to_string()));
    assert_eq!(parsed["n"].as_u64(), Some(7));
}

#[test]
fn parses_pretty_printed_documents() {
    let text = "{\n  \"contracts\" : {\n    \"A.sol:A\" : {\n      \"abi\" : \"[]\",\n      \"bin\" : \"60\"\n    }\n  },\n  \"version\" : \"0.4.24\"\n}\n";
    let j = parse_json(text).unwrap();
    match &j {
        Json::Obj(ps) => {
            assert_eq!(ps.len(), 2);
            assert_eq!(ps[0].0, "contracts");
            assert_eq!(ps[1].0, "version");
        }
        _ => panic!("expected an object"),
    }
}
