//! The composite report, its machine-readable JSON form, the pass/fail
//! summary, and the operator's choices: output mode and analysis depth.

use vstd::prelude::*;
use crate::json::Json;
use crate::json::Jv;
use crate::json::m_views;
use crate::json::wf_jv;
use crate::json::is_num_token;
use crate::json::emit_jv;
use crate::json::parse_json_spec;
use crate::json::lemma_parse_emit;
use crate::json::lemma_dec_chars_is_num_token;
use crate::json::j_views;
use crate::json::u64_to_string;
use crate::json::dec_chars;
use crate::solium::SoliumIssue;
use crate::solium::SoliumIssueV;
use crate::solium::issue_views;
use crate::solium::find_char;
use crate::solium::find_char_x;
use crate::strutil::string_range;
use crate::strutil::chars_of;
use crate::tools::SolcResponse;
use crate::tools::SoliumResponse;
use crate::tools::MythrilResponse;
use crate::tools::OyenteResponse;
use crate::tool_output::SolcOutput;
use crate::tool_output::SolcOutputV;
use crate::tool_output::SolcContractV;
use crate::tool_output::MythrilOutput;
use crate::tool_output::MythrilOutputV;
use crate::tool_output::MythrilIssueV;
use crate::tool_output::OyenteOutput;
use crate::tool_output::OyenteOutputV;
use crate::tool_output::OyenteFileV;
use crate::tool_output::OyenteContractV;

verus! {

/// The version the report declares itself with.
pub fn solsa_version() -> (r: String)
    ensures
        r@ == "0.1.0"@,
{
    String::from_str("0.1.0")
}

/// JSON form of a solc contract entry.
pub open spec fn jv_of_solc_contract(c: SolcContractV) -> Jv {
    Jv::Obj(seq![("abi"@, Jv::Str(c.abi)), ("bin"@, Jv::Str(c.bin))])
}

/// JSON members for the contracts from `idx` on.
pub open spec fn jv_of_solc_contracts(cs: Seq<(Seq<char>, SolcContractV)>, idx: int) -> Seq<
    (Seq<char>, Jv),
>
    decreases cs.len() - idx,
{
    if idx < 0 || idx >= cs.len() {
        Seq::empty()
    } else {
        seq![(cs[idx].0, jv_of_solc_contract(cs[idx].1))] + jv_of_solc_contracts(cs, idx + 1)
    }
}

/// JSON form of a solc output.
pub open spec fn jv_of_solc(o: SolcOutputV) -> Jv {
    Jv::Obj(
        seq![
            ("contracts"@, Jv::Obj(jv_of_solc_contracts(o.contracts, 0))),
            ("version"@, Jv::Str(o.version)),
        ],
    )
}

pub fn solc_to_json(o: &SolcOutput) -> (r: Json)
    ensures
        r@ == jv_of_solc(o.deep_view()),
{
    let ghost cdv = o.deep_view().contracts;
    let mut acc: Vec<(String, Json)> = Vec::new();
    let mut i: usize = 0;
    proof {
        assert(m_views(acc@) + jv_of_solc_contracts(cdv, 0) =~= jv_of_solc_contracts(cdv, 0));
    }
    while i < o.contracts.len()
        invariant
            i <= o.contracts@.len(),
            cdv == o.deep_view().contracts,
            cdv.len() == o.contracts@.len(),
            jv_of_solc_contracts(cdv, 0) == m_views(acc@) + jv_of_solc_contracts(cdv, i as int),
        decreases o.contracts@.len() - i,
    {
        let name = o.contracts[i].0.clone();
        let mut ps: Vec<(String, Json)> = Vec::new();
        ps.push((String::from_str("abi"), Json::Str(o.contracts[i].1.abi.clone())));
        ps.push((String::from_str("bin"), Json::Str(o.contracts[i].1.bin.clone())));
        let ghost psv = ps@;
        let entry = Json::Obj(ps);
        proof {
            assert(cdv[i as int] == (
                o.contracts@[i as int].0@,
                o.contracts@[i as int].1.deep_view(),
            ));
            assert(entry@ == Jv::Obj(m_views(psv)));
            assert(m_views(psv) =~= seq![
                ("abi"@, Jv::Str(cdv[i as int].1.abi)),
                ("bin"@, Jv::Str(cdv[i as int].1.bin)),
            ]);
        }
        let ghost prev = acc@;
        let ghost namev = name@;
        let ghost entryv = entry@;
        acc.push((name, entry));
        proof {
            assert(m_views(acc@) =~= m_views(prev).push((namev, entryv)));
            assert(m_views(prev) + (seq![(cdv[i as int].0, jv_of_solc_contract(cdv[i as int].1))]
                + jv_of_solc_contracts(cdv, i as int + 1)) =~= m_views(acc@)
                + jv_of_solc_contracts(cdv, i as int + 1));
        }
        i = i + 1;
    }
    proof {
        assert(m_views(acc@) + jv_of_solc_contracts(cdv, i as int) =~= m_views(acc@));
    }
    let ghost accv = acc@;
    let mut top: Vec<(String, Json)> = Vec::new();
    top.push((String::from_str("contracts"), Json::Obj(acc)));
    top.push((String::from_str("version"), Json::Str(o.version.clone())));
    let ghost topv = top@;
    let r = Json::Obj(top);
    proof {
        assert(r@ == Jv::Obj(m_views(topv)));
        assert(m_views(topv) =~= seq![
            ("contracts"@, Jv::Obj(m_views(accv))),
            ("version"@, Jv::Str(o.deep_view().version)),
        ]);
    }
    r
}

/// JSON form of one solium issue.
pub open spec fn jv_of_issue(it: SoliumIssueV) -> Jv {
    Jv::Obj(
        seq![
            ("filename"@, Jv::Str(it.filename)),
            ("line"@, Jv::Num(dec_chars(it.line as nat))),
            ("column"@, Jv::Num(dec_chars(it.column as nat))),
            ("type"@, Jv::Str(it.kind)),
            ("message"@, Jv::Str(it.message)),
        ],
    )
}

/// JSON elements for the issues from `idx` on.
pub open spec fn jv_of_issues(l: Seq<SoliumIssueV>, idx: int) -> Seq<Jv>
    decreases l.len() - idx,
{
    if idx < 0 || idx >= l.len() {
        Seq::empty()
    } else {
        seq![jv_of_issue(l[idx])] + jv_of_issues(l, idx + 1)
    }
}

pub fn issues_to_json(l: &Vec<SoliumIssue>) -> (r: Json)
    ensures
        r@ == Jv::Arr(jv_of_issues(issue_views(l@), 0)),
{
    let ghost ldv = issue_views(l@);
    let mut acc: Vec<Json> = Vec::new();
    let mut i: usize = 0;
    proof {
        assert(j_views(acc@) + jv_of_issues(ldv, 0) =~= jv_of_issues(ldv, 0));
    }
    while i < l.len()
        invariant
            i <= l@.len(),
            ldv == issue_views(l@),
            ldv.len() == l@.len(),
            jv_of_issues(ldv, 0) == j_views(acc@) + jv_of_issues(ldv, i as int),
        decreases l@.len() - i,
    {
        let mut ps: Vec<(String, Json)> = Vec::new();
        ps.push((String::from_str("filename"), Json::Str(l[i].filename.clone())));
        ps.push((String::from_str("line"), Json::Num(u64_to_string(l[i].line as u64))));
        ps.push((String::from_str("column"), Json::Num(u64_to_string(l[i].column as u64))));
        ps.push((String::from_str("type"), Json::Str(l[i].type_.clone())));
        ps.push((String::from_str("message"), Json::Str(l[i].message.clone())));
        let ghost psv = ps@;
        let entry = Json::Obj(ps);
        proof {
            assert(ldv[i as int] == l@[i as int]@);
            assert(entry@ == Jv::Obj(m_views(psv)));
            assert(m_views(psv) =~= seq![
                ("filename"@, Jv::Str(ldv[i as int].filename)),
                ("line"@, Jv::Num(dec_chars(ldv[i as int].line as nat))),
                ("column"@, Jv::Num(dec_chars(ldv[i as int].column as nat))),
                ("type"@, Jv::Str(ldv[i as int].kind)),
                ("message"@, Jv::Str(ldv[i as int].message)),
            ]);
            assert(entry@ == jv_of_issue(ldv[i as int]));
        }
        let ghost prev = acc@;
        let ghost entryv = entry@;
        acc.push(entry);
        proof {
            assert(j_views(acc@) =~= j_views(prev).push(entryv));
            assert(j_views(prev) + (seq![jv_of_issue(ldv[i as int])] + jv_of_issues(
                ldv,
                i as int + 1,
            )) =~= j_views(acc@) + jv_of_issues(ldv, i as int + 1));
        }
        i = i + 1;
    }
    proof {
        assert(j_views(acc@) + jv_of_issues(ldv, i as int) =~= j_views(acc@));
    }
    Json::Arr(acc)
}


/// JSON form of one mythril finding.
pub open spec fn jv_of_mythril_issue(it: MythrilIssueV) -> Jv {
    Jv::Obj(
        seq![
            ("title"@, Jv::Str(it.title)),
            ("description"@, Jv::Str(it.description)),
            ("type"@, Jv::Str(it.kind)),
            ("code"@, Jv::Str(it.code)),
            ("function"@, Jv::Str(it.function)),
            ("debug"@, Jv::Str(it.debug)),
            ("filename"@, Jv::Str(it.filename)),
            ("lineno"@, Jv::Num(dec_chars(it.lineno as nat))),
            ("address"@, Jv::Num(dec_chars(it.address as nat))),
        ],
    )
}

/// JSON elements for the findings from `idx` on.
pub open spec fn jv_of_mythril_issues(l: Seq<MythrilIssueV>, idx: int) -> Seq<Jv>
    decreases l.len() - idx,
{
    if idx < 0 || idx >= l.len() {
        Seq::empty()
    } else {
        seq![jv_of_mythril_issue(l[idx])] + jv_of_mythril_issues(l, idx + 1)
    }
}

/// JSON form of an optional text: a string or null.
pub open spec fn jv_of_opt_str(e: Option<Seq<char>>) -> Jv {
    match e {
        Some(s) => Jv::Str(s),
        None => Jv::Null,
    }
}

/// JSON form of a mythril output.
pub open spec fn jv_of_mythril(o: MythrilOutputV) -> Jv {
    Jv::Obj(
        seq![
            ("success"@, Jv::Bool(o.success)),
            ("error"@, jv_of_opt_str(o.error)),
            ("issues"@, Jv::Arr(jv_of_mythril_issues(o.issues, 0))),
        ],
    )
}

pub fn mythril_to_json(o: &MythrilOutput) -> (r: Json)
    ensures
        r@ == jv_of_mythril(o.deep_view()),
{
    let ghost ldv = o.issues.deep_view();
    let mut acc: Vec<Json> = Vec::new();
    let mut i: usize = 0;
    proof {
        assert(j_views(acc@) + jv_of_mythril_issues(ldv, 0) =~= jv_of_mythril_issues(ldv, 0));
    }
    while i < o.issues.len()
        invariant
            i <= o.issues@.len(),
            ldv == o.issues.deep_view(),
            ldv.len() == o.issues@.len(),
            jv_of_mythril_issues(ldv, 0) == j_views(acc@) + jv_of_mythril_issues(ldv, i as int),
        decreases o.issues@.len() - i,
    {
        let mut ps: Vec<(String, Json)> = Vec::new();
        ps.push((String::from_str("title"), Json::Str(o.issues[i].title.clone())));
        ps.push((String::from_str("description"), Json::Str(o.issues[i].description.clone())));
        ps.push((String::from_str("type"), Json::Str(o.issues[i].type_.clone())));
        ps.push((String::from_str("code"), Json::Str(o.issues[i].code.clone())));
        ps.push((String::from_str("function"), Json::Str(o.issues[i].function.clone())));
        ps.push((String::from_str("debug"), Json::Str(o.issues[i].debug.clone())));
        ps.push((String::from_str("filename"), Json::Str(o.issues[i].filename.clone())));
        ps.push((String::from_str("lineno"), Json::Num(u64_to_string(o.issues[i].lineno as u64))));
        ps.push((
            String::from_str("address"),
            Json::Num(u64_to_string(o.issues[i].address as u64)),
        ));
        let ghost psv = ps@;
        let entry = Json::Obj(ps);
        proof {
            assert(ldv[i as int] == o.issues@[i as int].deep_view());
            assert(entry@ == Jv::Obj(m_views(psv)));
            assert(m_views(psv) =~= seq![
                ("title"@, Jv::Str(ldv[i as int].title)),
                ("description"@, Jv::Str(ldv[i as int].description)),
                ("type"@, Jv::Str(ldv[i as int].kind)),
                ("code"@, Jv::Str(ldv[i as int].code)),
                ("function"@, Jv::Str(ldv[i as int].function)),
                ("debug"@, Jv::Str(ldv[i as int].debug)),
                ("filename"@, Jv::Str(ldv[i as int].filename)),
                ("lineno"@, Jv::Num(dec_chars(ldv[i as int].lineno as nat))),
                ("address"@, Jv::Num(dec_chars(ldv[i as int].address as nat))),
            ]);
            assert(entry@ == jv_of_mythril_issue(ldv[i as int]));
        }
        let ghost prev = acc@;
        let ghost entryv = entry@;
        acc.push(entry);
        proof {
            assert(j_views(acc@) =~= j_views(prev).push(entryv));
            assert(j_views(prev) + (seq![jv_of_mythril_issue(ldv[i as int])]
                + jv_of_mythril_issues(ldv, i as int + 1)) =~= j_views(acc@)
                + jv_of_mythril_issues(ldv, i as int + 1));
        }
        i = i + 1;
    }
    proof {
        assert(j_views(acc@) + jv_of_mythril_issues(ldv, i as int) =~= j_views(acc@));
    }
    let errj: Json;
    match &o.error {
        Some(e) => {
            errj = Json::Str(e.clone());
            proof {
                assert(o.deep_view().error == Some(e@));
            }
        },
        None => {
            errj = Json::Null;
            proof {
                assert(o.deep_view().error is None);
            }
        },
    }
    let ghost errjv = errj@;
    proof {
        assert(errjv == jv_of_opt_str(o.deep_view().error));
    }
    proof {
        assert(o.deep_view().issues == ldv);
        assert(o.deep_view().issues == o.issues.deep_view());
    }
    let ghost accv = acc@;
    let mut top: Vec<(String, Json)> = Vec::new();
    top.push((String::from_str("success"), Json::Bool(o.success)));
    top.push((String::from_str("error"), errj));
    top.push((String::from_str("issues"), Json::Arr(acc)));
    let ghost topv = top@;
    let r = Json::Obj(top);
    proof {
        assert(r@ == Jv::Obj(m_views(topv)));
        assert(j_views(accv) == jv_of_mythril_issues(ldv, 0));
        assert(m_views(topv) =~= seq![
            ("success"@, Jv::Bool(o.deep_view().success)),
            ("error"@, jv_of_opt_str(o.deep_view().error)),
            ("issues"@, Jv::Arr(jv_of_mythril_issues(o.deep_view().issues, 0))),
        ]);
        assert(r@ == jv_of_mythril(o.deep_view()));
    }
    r
}

/// JSON elements for plain strings from `idx` on.
pub open spec fn jv_of_strings(l: Seq<Seq<char>>, idx: int) -> Seq<Jv>
    decreases l.len() - idx,
{
    if idx < 0 || idx >= l.len() {
        Seq::empty()
    } else {
        seq![Jv::Str(l[idx])] + jv_of_strings(l, idx + 1)
    }
}

fn strings_to_json(l: &Vec<String>) -> (r: Json)
    ensures
        r@ == Jv::Arr(jv_of_strings(l.deep_view(), 0)),
{
    let ghost ldv = l.deep_view();
    let mut acc: Vec<Json> = Vec::new();
    let mut i: usize = 0;
    proof {
        assert(j_views(acc@) + jv_of_strings(ldv, 0) =~= jv_of_strings(ldv, 0));
    }
    while i < l.len()
        invariant
            i <= l@.len(),
            ldv == l.deep_view(),
            ldv.len() == l@.len(),
            jv_of_strings(ldv, 0) == j_views(acc@) + jv_of_strings(ldv, i as int),
        decreases l@.len() - i,
    {
        let entry = Json::Str(l[i].clone());
        proof {
            assert(ldv[i as int] == l@[i as int]@);
            assert(entry@ == Jv::Str(ldv[i as int]));
        }
        let ghost prev = acc@;
        let ghost entryv = entry@;
        acc.push(entry);
        proof {
            assert(j_views(acc@) =~= j_views(prev).push(entryv));
            assert(j_views(prev) + (seq![Jv::Str(ldv[i as int])] + jv_of_strings(
                ldv,
                i as int + 1,
            )) =~= j_views(acc@) + jv_of_strings(ldv, i as int + 1));
        }
        i = i + 1;
    }
    proof {
        assert(j_views(acc@) + jv_of_strings(ldv, i as int) =~= j_views(acc@));
    }
    Json::Arr(acc)
}

/// JSON form of the vulnerability table.
pub open spec fn jv_of_vulns(v: crate::tool_output::OyenteVulnerabilitiesV) -> Jv {
    Jv::Obj(
        seq![
            ("integer_overflow"@, Jv::Arr(jv_of_strings(v.integer_overflow, 0))),
            ("integer_underflow"@, Jv::Arr(jv_of_strings(v.integer_underflow, 0))),
            ("callstack"@, Jv::Arr(jv_of_strings(v.callstack, 0))),
            ("money_concurrency"@, Jv::Arr(jv_of_strings(v.money_concurrency, 0))),
            ("time_dependency"@, Jv::Arr(jv_of_strings(v.time_dependency, 0))),
            ("reentrancy"@, Jv::Arr(jv_of_strings(v.reentrancy, 0))),
            ("assertion_failure"@, Jv::Arr(jv_of_strings(v.assertion_failure, 0))),
            ("parity_multisig_bug_2"@, Jv::Arr(jv_of_strings(v.parity_multisig_bug_2, 0))),
        ],
    )
}

/// JSON form of one analyzed contract.
pub open spec fn jv_of_oyente_contract(c: OyenteContractV) -> Jv {
    Jv::Obj(
        seq![
            ("evm_code_coverage"@, Jv::Str(c.evm_code_coverage)),
            ("vulnerabilities"@, jv_of_vulns(c.vulnerabilities)),
        ],
    )
}

/// JSON members for the contracts of one file from `idx` on.
pub open spec fn jv_of_oyente_contracts(cs: Seq<(Seq<char>, OyenteContractV)>, idx: int) -> Seq<
    (Seq<char>, Jv),
>
    decreases cs.len() - idx,
{
    if idx < 0 || idx >= cs.len() {
        Seq::empty()
    } else {
        seq![(cs[idx].0, jv_of_oyente_contract(cs[idx].1))] + jv_of_oyente_contracts(cs, idx + 1)
    }
}

/// JSON members for the files from `idx` on.
pub open spec fn jv_of_oyente_files(fs: Seq<(Seq<char>, OyenteFileV)>, idx: int) -> Seq<
    (Seq<char>, Jv),
>
    decreases fs.len() - idx,
{
    if idx < 0 || idx >= fs.len() {
        Seq::empty()
    } else {
        seq![(fs[idx].0, Jv::Obj(jv_of_oyente_contracts(fs[idx].1.contracts, 0)))]
            + jv_of_oyente_files(fs, idx + 1)
    }
}

/// JSON form of an oyente output.
pub open spec fn jv_of_oyente(o: OyenteOutputV) -> Jv {
    Jv::Obj(jv_of_oyente_files(o.files, 0))
}

fn oyente_vulns_to_json(v: &crate::tool_output::OyenteVulnerabilities) -> (r: Json)
    ensures
        r@ == jv_of_vulns(v.deep_view()),
{
    let mut ps: Vec<(String, Json)> = Vec::new();
    ps.push((String::from_str("integer_overflow"), strings_to_json(&v.integer_overflow)));
    ps.push((String::from_str("integer_underflow"), strings_to_json(&v.integer_underflow)));
    ps.push((String::from_str("callstack"), strings_to_json(&v.callstack)));
    ps.push((String::from_str("money_concurrency"), strings_to_json(&v.money_concurrency)));
    ps.push((String::from_str("time_dependency"), strings_to_json(&v.time_dependency)));
    ps.push((String::from_str("reentrancy"), strings_to_json(&v.reentrancy)));
    ps.push((String::from_str("assertion_failure"), strings_to_json(&v.assertion_failure)));
    ps.push((
        String::from_str("parity_multisig_bug_2"),
        strings_to_json(&v.parity_multisig_bug_2),
    ));
    let ghost psv = ps@;
    let r = Json::Obj(ps);
    proof {
        assert(r@ == Jv::Obj(m_views(psv)));
        assert(m_views(psv) =~= seq![
            ("integer_overflow"@, Jv::Arr(jv_of_strings(v.deep_view().integer_overflow, 0))),
            ("integer_underflow"@, Jv::Arr(jv_of_strings(v.deep_view().integer_underflow, 0))),
            ("callstack"@, Jv::Arr(jv_of_strings(v.deep_view().callstack, 0))),
            ("money_concurrency"@, Jv::Arr(jv_of_strings(v.deep_view().money_concurrency, 0))),
            ("time_dependency"@, Jv::Arr(jv_of_strings(v.deep_view().time_dependency, 0))),
            ("reentrancy"@, Jv::Arr(jv_of_strings(v.deep_view().reentrancy, 0))),
            ("assertion_failure"@, Jv::Arr(jv_of_strings(v.deep_view().assertion_failure, 0))),
            (
                "parity_multisig_bug_2"@,
                Jv::Arr(jv_of_strings(v.deep_view().parity_multisig_bug_2, 0)),
            ),
        ]);
    }
    r
}

pub fn oyente_to_json(o: &OyenteOutput) -> (r: Json)
    ensures
        r@ == jv_of_oyente(o.deep_view()),
{
    let ghost fdv = o.deep_view().files;
    let mut acc: Vec<(String, Json)> = Vec::new();
    let mut i: usize = 0;
    proof {
        assert(m_views(acc@) + jv_of_oyente_files(fdv, 0) =~= jv_of_oyente_files(fdv, 0));
    }
    while i < o.files.len()
        invariant
            i <= o.files@.len(),
            fdv == o.deep_view().files,
            fdv.len() == o.files@.len(),
            jv_of_oyente_files(fdv, 0) == m_views(acc@) + jv_of_oyente_files(fdv, i as int),
        decreases o.files@.len() - i,
    {
        let name = o.files[i].0.clone();
        let ghost cdv = o.files@[i as int].1.contracts.deep_view();
        let mut cacc: Vec<(String, Json)> = Vec::new();
        let mut k: usize = 0;
        proof {
            assert(fdv[i as int] == (
                o.files@[i as int].0@,
                o.files@[i as int].1.deep_view(),
            ));
            assert(m_views(cacc@) + jv_of_oyente_contracts(cdv, 0) =~= jv_of_oyente_contracts(
                cdv,
                0,
            ));
        }
        while k < o.files[i].1.contracts.len()
            invariant
                i < o.files@.len(),
                k <= o.files@[i as int].1.contracts@.len(),
                cdv == o.files@[i as int].1.contracts.deep_view(),
                cdv.len() == o.files@[i as int].1.contracts@.len(),
                jv_of_oyente_contracts(cdv, 0) == m_views(cacc@) + jv_of_oyente_contracts(
                    cdv,
                    k as int,
                ),
            decreases o.files@[i as int].1.contracts@.len() - k,
        {
            let cname = o.files[i].1.contracts[k].0.clone();
            let mut ps: Vec<(String, Json)> = Vec::new();
            ps.push((
                String::from_str("evm_code_coverage"),
                Json::Str(o.files[i].1.contracts[k].1.evm_code_coverage.clone()),
            ));
            ps.push((
                String::from_str("vulnerabilities"),
                oyente_vulns_to_json(&o.files[i].1.contracts[k].1.vulnerabilities),
            ));
            let ghost psv = ps@;
            let centry = Json::Obj(ps);
            proof {
                assert(cdv[k as int] == (
                    o.files@[i as int].1.contracts@[k as int].0@,
                    o.files@[i as int].1.contracts@[k as int].1.deep_view(),
                ));
                assert(centry@ == Jv::Obj(m_views(psv)));
                assert(m_views(psv) =~= seq![
                    ("evm_code_coverage"@, Jv::Str(cdv[k as int].1.evm_code_coverage)),
                    ("vulnerabilities"@, jv_of_vulns(cdv[k as int].1.vulnerabilities)),
                ]);
                assert(centry@ == jv_of_oyente_contract(cdv[k as int].1));
            }
            let ghost cprev = cacc@;
            let ghost cnamev = cname@;
            let ghost centryv = centry@;
            cacc.push((cname, centry));
            proof {
                assert(m_views(cacc@) =~= m_views(cprev).push((cnamev, centryv)));
                assert(m_views(cprev) + (seq![
                    (cdv[k as int].0, jv_of_oyente_contract(cdv[k as int].1)),
                ] + jv_of_oyente_contracts(cdv, k as int + 1)) =~= m_views(cacc@)
                    + jv_of_oyente_contracts(cdv, k as int + 1));
            }
            k = k + 1;
        }
        proof {
            assert(m_views(cacc@) + jv_of_oyente_contracts(cdv, k as int) =~= m_views(cacc@));
        }
        let ghost caccv = cacc@;
        let fentry = Json::Obj(cacc);
        proof {
            assert(fentry@ == Jv::Obj(m_views(caccv)));
            assert(fentry@ == Jv::Obj(jv_of_oyente_contracts(fdv[i as int].1.contracts, 0)));
        }
        let ghost prev = acc@;
        let ghost namev = name@;
        let ghost fentryv = fentry@;
        acc.push((name, fentry));
        proof {
            assert(m_views(acc@) =~= m_views(prev).push((namev, fentryv)));
            assert(m_views(prev) + (seq![
                (fdv[i as int].0, Jv::Obj(jv_of_oyente_contracts(fdv[i as int].1.contracts, 0))),
            ] + jv_of_oyente_files(fdv, i as int + 1)) =~= m_views(acc@) + jv_of_oyente_files(
                fdv,
                i as int + 1,
            ));
        }
        i = i + 1;
    }
    proof {
        assert(m_views(acc@) + jv_of_oyente_files(fdv, i as int) =~= m_views(acc@));
    }
    let ghost accv = acc@;
    let r = Json::Obj(acc);
    proof {
        assert(r@ == Jv::Obj(m_views(accv)));
    }
    r
}


/// Outcome views of the four adapters.
pub enum SolcResponseV {
    Success(SolcOutputV),
    Failure(Seq<char>),
}

pub enum SoliumResponseV {
    Success(Seq<SoliumIssueV>),
    Failure(Seq<char>),
}

pub enum MythrilResponseV {
    Success(MythrilOutputV),
    Failure(Seq<char>),
}

pub enum OyenteResponseV {
    Success(OyenteOutputV, bool),
    Failure(Seq<char>),
}

impl DeepView for SolcResponse {
    type V = SolcResponseV;

    open spec fn deep_view(&self) -> SolcResponseV {
        match self {
            SolcResponse::Success(o) => SolcResponseV::Success(o.deep_view()),
            SolcResponse::Failure(m) => SolcResponseV::Failure(m@),
        }
    }
}

impl DeepView for SoliumResponse {
    type V = SoliumResponseV;

    open spec fn deep_view(&self) -> SoliumResponseV {
        match self {
            SoliumResponse::Success(l) => SoliumResponseV::Success(issue_views(l@)),
            SoliumResponse::Failure(m) => SoliumResponseV::Failure(m@),
        }
    }
}

impl DeepView for MythrilResponse {
    type V = MythrilResponseV;

    open spec fn deep_view(&self) -> MythrilResponseV {
        match self {
            MythrilResponse::Success(o) => MythrilResponseV::Success(o.deep_view()),
            MythrilResponse::Failure(m) => MythrilResponseV::Failure(m@),
        }
    }
}

impl DeepView for OyenteResponse {
    type V = OyenteResponseV;

    open spec fn deep_view(&self) -> OyenteResponseV {
        match self {
            OyenteResponse::Success(o, flag) => OyenteResponseV::Success(o.deep_view(), *flag),
            OyenteResponse::Failure(m) => OyenteResponseV::Failure(m@),
        }
    }
}

/// The composite result of one invocation: one entry per tool, each either
/// present (a success or a failure with a message) or absent when the tool
/// could not be launched.
pub struct Report {
    pub contract_file: String,
    pub source_text: Option<String>,
    pub solc: Option<SolcResponse>,
    pub solium: Option<SoliumResponse>,
    pub mythril: Option<MythrilResponse>,
    pub oyente: Option<OyenteResponse>,
    pub version: String,
}

pub struct ReportV {
    pub contract_file: Seq<char>,
    pub source_text: Option<Seq<char>>,
    pub solc: Option<SolcResponseV>,
    pub solium: Option<SoliumResponseV>,
    pub mythril: Option<MythrilResponseV>,
    pub oyente: Option<OyenteResponseV>,
    pub version: Seq<char>,
}

impl DeepView for Report {
    type V = ReportV;

    open spec fn deep_view(&self) -> ReportV {
        ReportV {
            contract_file: self.contract_file@,
            source_text: self.source_text.deep_view(),
            solc: self.solc.deep_view(),
            solium: self.solium.deep_view(),
            mythril: self.mythril.deep_view(),
            oyente: self.oyente.deep_view(),
            version: self.version@,
        }
    }
}

/// One tool's member of the machine-readable report: an error flag and a
/// result.
pub open spec fn jv_of_tool_entry(error: bool, result: Jv) -> Jv {
    Jv::Obj(seq![("error"@, Jv::Bool(error)), ("result"@, result)])
}

pub open spec fn jv_of_solc_entry(s: Option<SolcResponseV>) -> Jv {
    match s {
        None => jv_of_tool_entry(false, Jv::Str(Seq::empty())),
        Some(SolcResponseV::Success(o)) => jv_of_tool_entry(false, jv_of_solc(o)),
        Some(SolcResponseV::Failure(m)) => jv_of_tool_entry(true, Jv::Str(m)),
    }
}

pub open spec fn jv_of_solium_entry(s: Option<SoliumResponseV>) -> Jv {
    match s {
        None => jv_of_tool_entry(false, Jv::Str(Seq::empty())),
        Some(SoliumResponseV::Success(l)) => jv_of_tool_entry(false, Jv::Arr(jv_of_issues(l, 0))),
        Some(SoliumResponseV::Failure(m)) => jv_of_tool_entry(true, Jv::Str(m)),
    }
}

pub open spec fn jv_of_mythril_entry(s: Option<MythrilResponseV>) -> Jv {
    match s {
        None => jv_of_tool_entry(false, Jv::Str(Seq::empty())),
        Some(MythrilResponseV::Success(o)) => jv_of_tool_entry(false, jv_of_mythril(o)),
        Some(MythrilResponseV::Failure(m)) => jv_of_tool_entry(true, Jv::Str(m)),
    }
}

pub open spec fn jv_of_oyente_entry(s: Option<OyenteResponseV>) -> Jv {
    match s {
        None => jv_of_tool_entry(false, Jv::Str(Seq::empty())),
        Some(OyenteResponseV::Success(o, _)) => jv_of_tool_entry(false, jv_of_oyente(o)),
        Some(OyenteResponseV::Failure(m)) => jv_of_tool_entry(true, Jv::Str(m)),
    }
}

/// The whole machine-readable report.
pub open spec fn jv_of_report(rv: ReportV) -> Jv {
    Jv::Obj(
        seq![
            ("solc"@, jv_of_solc_entry(rv.solc)),
            ("solium"@, jv_of_solium_entry(rv.solium)),
            ("mythril"@, jv_of_mythril_entry(rv.mythril)),
            ("oyente"@, jv_of_oyente_entry(rv.oyente)),
            ("source"@, jv_of_opt_str(rv.source_text)),
            ("solsa_version"@, Jv::Str(rv.version)),
        ],
    )
}

fn tool_entry_json(error: bool, result: Json) -> (r: Json)
    ensures
        r@ == jv_of_tool_entry(error, result@),
{
    let ghost resv = result@;
    let mut ps: Vec<(String, Json)> = Vec::new();
    ps.push((String::from_str("error"), Json::Bool(error)));
    ps.push((String::from_str("result"), result));
    let ghost psv = ps@;
    let r = Json::Obj(ps);
    proof {
        assert(r@ == Jv::Obj(m_views(psv)));
        assert(m_views(psv) =~= seq![("error"@, Jv::Bool(error)), ("result"@, resv)]);
    }
    r
}

fn solc_entry_json(s: &Option<SolcResponse>) -> (r: Json)
    ensures
        r@ == jv_of_solc_entry(s.deep_view()),
{
    match s {
        None => tool_entry_json(false, Json::Str(String::new())),
        Some(SolcResponse::Success(o)) => {
            let r = tool_entry_json(false, solc_to_json(o));
            proof {
                assert(s.deep_view() == Some(SolcResponseV::Success(o.deep_view())));
            }
            r
        },
        Some(SolcResponse::Failure(m)) => {
            let r = tool_entry_json(true, Json::Str(m.clone()));
            proof {
                assert(s.deep_view() == Some(SolcResponseV::Failure(m@)));
            }
            r
        },
    }
}

fn solium_entry_json(s: &Option<SoliumResponse>) -> (r: Json)
    ensures
        r@ == jv_of_solium_entry(s.deep_view()),
{
    match s {
        None => tool_entry_json(false, Json::Str(String::new())),
        Some(SoliumResponse::Success(l)) => {
            let r = tool_entry_json(false, issues_to_json(l));
            proof {
                assert(s.deep_view() == Some(SoliumResponseV::Success(issue_views(l@))));
            }
            r
        },
        Some(SoliumResponse::Failure(m)) => {
            let r = tool_entry_json(true, Json::Str(m.clone()));
            proof {
                assert(s.deep_view() == Some(SoliumResponseV::Failure(m@)));
            }
            r
        },
    }
}

fn mythril_entry_json(s: &Option<MythrilResponse>) -> (r: Json)
    ensures
        r@ == jv_of_mythril_entry(s.deep_view()),
{
    match s {
        None => tool_entry_json(false, Json::Str(String::new())),
        Some(MythrilResponse::Success(o)) => {
            let r = tool_entry_json(false, mythril_to_json(o));
            proof {
                assert(s.deep_view() == Some(MythrilResponseV::Success(o.deep_view())));
            }
            r
        },
        Some(MythrilResponse::Failure(m)) => {
            let r = tool_entry_json(true, Json::Str(m.clone()));
            proof {
                assert(s.deep_view() == Some(MythrilResponseV::Failure(m@)));
            }
            r
        },
    }
}

fn oyente_entry_json(s: &Option<OyenteResponse>) -> (r: Json)
    ensures
        r@ == jv_of_oyente_entry(s.deep_view()),
{
    match s {
        None => tool_entry_json(false, Json::Str(String::new())),
        Some(OyenteResponse::Success(o, flag)) => {
            let r = tool_entry_json(false, oyente_to_json(o));
            proof {
                assert(s.deep_view() == Some(OyenteResponseV::Success(o.deep_view(), *flag)));
            }
            r
        },
        Some(OyenteResponse::Failure(m)) => {
            let r = tool_entry_json(true, Json::Str(m.clone()));
            proof {
                assert(s.deep_view() == Some(OyenteResponseV::Failure(m@)));
            }
            r
        },
    }
}

/// The machine-readable document of a report: one member per tool, each
/// with an error flag and a result, then the optional source text and the
/// version.
pub fn report_to_json(r: &Report) -> (j: Json)
    ensures
        j@ == jv_of_report(r.deep_view()),
{
    let solc_j = solc_entry_json(&r.solc);
    let solium_j = solium_entry_json(&r.solium);
    let mythril_j = mythril_entry_json(&r.mythril);
    let oyente_j = oyente_entry_json(&r.oyente);
    let source_j: Json;
    match &r.source_text {
        Some(t) => {
            source_j = Json::Str(t.clone());
            proof {
                assert(r.deep_view().source_text == Some(t@));
            }
        },
        None => {
            source_j = Json::Null;
            proof {
                assert(r.deep_view().source_text is None);
            }
        },
    }
    let ghost sjv = source_j@;
    proof {
        assert(sjv == jv_of_opt_str(r.deep_view().source_text));
    }
    let ghost e1 = solc_j@;
    let ghost e2 = solium_j@;
    let ghost e3 = mythril_j@;
    let ghost e4 = oyente_j@;
    let mut ps: Vec<(String, Json)> = Vec::new();
    ps.push((String::from_str("solc"), solc_j));
    ps.push((String::from_str("solium"), solium_j));
    ps.push((String::from_str("mythril"), mythril_j));
    ps.push((String::from_str("oyente"), oyente_j));
    ps.push((String::from_str("source"), source_j));
    ps.push((String::from_str("solsa_version"), Json::Str(r.version.clone())));
    let ghost psv = ps@;
    let j = Json::Obj(ps);
    proof {
        assert(j@ == Jv::Obj(m_views(psv)));
        assert(m_views(psv) =~= seq![
            ("solc"@, e1),
            ("solium"@, e2),
            ("mythril"@, e3),
            ("oyente"@, e4),
            ("source"@, sjv),
            ("solsa_version"@, Jv::Str(r.deep_view().version)),
        ]);
        assert(j@ == jv_of_report(r.deep_view()));
    }
    j
}

/// Names of an object's members, in order.
pub open spec fn obj_keys(v: Jv) -> Seq<Seq<char>> {
    match v {
        Jv::Obj(ps) => Seq::new(
            ps.len(),
            |i: int| if 0 <= i < ps.len() { ps[i].0 } else { Seq::empty() },
        ),
        _ => Seq::empty(),
    }
}

/// The machine-readable report of any invocation holds exactly one member
/// per tool, under the four fixed tool names, then the source text and the
/// version, and nothing else.
pub proof fn lemma_report_entry_per_tool(rv: ReportV)
    ensures
        obj_keys(jv_of_report(rv)) == seq![
            "solc"@,
            "solium"@,
            "mythril"@,
            "oyente"@,
            "source"@,
            "solsa_version"@,
        ],
{
    assert(obj_keys(jv_of_report(rv)) =~= seq![
        "solc"@,
        "solium"@,
        "mythril"@,
        "oyente"@,
        "source"@,
        "solsa_version"@,
    ]);
}

/// Whether a tool counts against the pass/fail summary.
pub open spec fn solc_problem(s: Option<SolcResponseV>) -> bool {
    match s {
        None => true,
        Some(SolcResponseV::Failure(_)) => true,
        Some(SolcResponseV::Success(_)) => false,
    }
}

pub open spec fn solium_problem(s: Option<SoliumResponseV>) -> bool {
    match s {
        None => true,
        Some(SoliumResponseV::Failure(_)) => true,
        Some(SoliumResponseV::Success(l)) => l.len() > 0,
    }
}

pub open spec fn mythril_problem(s: Option<MythrilResponseV>) -> bool {
    match s {
        None => true,
        Some(MythrilResponseV::Failure(_)) => true,
        Some(MythrilResponseV::Success(o)) => !o.success,
    }
}

pub open spec fn oyente_problem(s: Option<OyenteResponseV>) -> bool {
    match s {
        None => true,
        Some(OyenteResponseV::Failure(_)) => true,
        Some(OyenteResponseV::Success(_, flag)) => flag,
    }
}

/// The tools the pass/fail summary reports, in the fixed order.
pub open spec fn problem_names(rv: ReportV) -> Seq<Seq<char>> {
    (if solc_problem(rv.solc) {
        seq!["solc"@]
    } else {
        Seq::empty()
    }) + (if solium_problem(rv.solium) {
        seq!["solium"@]
    } else {
        Seq::empty()
    }) + (if mythril_problem(rv.mythril) {
        seq!["mythril"@]
    } else {
        Seq::empty()
    }) + (if oyente_problem(rv.oyente) {
        seq!["oyente"@]
    } else {
        Seq::empty()
    })
}

fn solc_problem_x(s: &Option<SolcResponse>) -> (b: bool)
    ensures
        b == solc_problem(s.deep_view()),
{
    match s {
        None => true,
        Some(SolcResponse::Failure(_)) => true,
        Some(SolcResponse::Success(_)) => false,
    }
}

fn solium_problem_x(s: &Option<SoliumResponse>) -> (b: bool)
    ensures
        b == solium_problem(s.deep_view()),
{
    match s {
        None => true,
        Some(SoliumResponse::Failure(_)) => true,
        Some(SoliumResponse::Success(l)) => {
            proof {
                assert(issue_views(l@).len() == l@.len());
            }
            l.len() > 0
        },
    }
}

fn mythril_problem_x(s: &Option<MythrilResponse>) -> (b: bool)
    ensures
        b == mythril_problem(s.deep_view()),
{
    match s {
        None => true,
        Some(MythrilResponse::Failure(_)) => true,
        Some(MythrilResponse::Success(o)) => !o.success,
    }
}

fn oyente_problem_x(s: &Option<OyenteResponse>) -> (b: bool)
    ensures
        b == oyente_problem(s.deep_view()),
{
    match s {
        None => true,
        Some(OyenteResponse::Failure(_)) => true,
        Some(OyenteResponse::Success(_, flag)) => *flag,
    }
}

/// The tools that count against the pass/fail summary: an absent or failed
/// tool, a solium run with at least one issue (an empty list is clean), a
/// mythril report whose own success flag is false, and an oyente run whose
/// issues flag is set.
pub fn problematic_tools(r: &Report) -> (names: Vec<String>)
    ensures
        names.deep_view() == problem_names(r.deep_view()),
{
    let ghost rv = r.deep_view();
    let mut names: Vec<String> = Vec::new();
    if solc_problem_x(&r.solc) {
        names.push(String::from_str("solc"));
    }
    proof {
        assert(names.deep_view() =~= (if solc_problem(rv.solc) {
            seq!["solc"@]
        } else {
            Seq::<Seq<char>>::empty()
        }));
    }
    let ghost p1 = names.deep_view();
    if solium_problem_x(&r.solium) {
        names.push(String::from_str("solium"));
    }
    proof {
        assert(names.deep_view() =~= p1 + (if solium_problem(rv.solium) {
            seq!["solium"@]
        } else {
            Seq::<Seq<char>>::empty()
        }));
    }
    let ghost p2 = names.deep_view();
    if mythril_problem_x(&r.mythril) {
        names.push(String::from_str("mythril"));
    }
    proof {
        assert(names.deep_view() =~= p2 + (if mythril_problem(rv.mythril) {
            seq!["mythril"@]
        } else {
            Seq::<Seq<char>>::empty()
        }));
    }
    let ghost p3 = names.deep_view();
    if oyente_problem_x(&r.oyente) {
        names.push(String::from_str("oyente"));
    }
    proof {
        assert(names.deep_view() =~= p3 + (if oyente_problem(rv.oyente) {
            seq!["oyente"@]
        } else {
            Seq::<Seq<char>>::empty()
        }));
        assert(names.deep_view() =~= problem_names(rv));
    }
    names
}

/// The names from `idx` on, each preceded by a comma and a space.
pub open spec fn tail_join(names: Seq<Seq<char>>, idx: int) -> Seq<char>
    decreases names.len() - idx,
{
    if idx < 0 || idx >= names.len() {
        Seq::empty()
    } else {
        ", "@ + names[idx] + tail_join(names, idx + 1)
    }
}

/// All names, separated by a comma and a space.
pub open spec fn joined(names: Seq<Seq<char>>) -> Seq<char> {
    if names.len() == 0 {
        Seq::empty()
    } else {
        names[0] + tail_join(names, 1)
    }
}

/// The pass/fail line of a report.
pub open spec fn summary_line_spec(rv: ReportV) -> Seq<char> {
    if problem_names(rv).len() == 0 {
        "No issues found"@
    } else {
        "Issues found in "@ + joined(problem_names(rv))
    }
}

/// The single line the silent mode prints.
pub fn summary_line(r: &Report) -> (line: String)
    ensures
        line@ == summary_line_spec(r.deep_view()),
{
    let names = problematic_tools(r);
    let ghost nv = names.deep_view();
    proof {
        assert(nv.len() == names@.len());
    }
    if names.len() == 0 {
        let line = String::from_str("No issues found");
        line
    } else {
        let mut out = String::from_str("Issues found in ");
        out.append(names[0].as_str());
        let ghost target = "Issues found in "@ + joined(nv);
        proof {
            assert(nv[0] == names@[0]@);
            assert(out@ + tail_join(nv, 1) =~= target);
        }
        let mut i: usize = 1;
        while i < names.len()
            invariant
                1 <= i <= names@.len(),
                nv == names.deep_view(),
                nv.len() == names@.len(),
                target == "Issues found in "@ + joined(nv),
                out@ + tail_join(nv, i as int) == target,
            decreases names@.len() - i,
        {
            out.append(", ");
            out.append(names[i].as_str());
            proof {
                assert(nv[i as int] == names@[i as int]@);
                assert(out@ + tail_join(nv, i as int + 1) =~= target) by {
                    reveal_strlit(", ");
                }
            }
            i = i + 1;
        }
        proof {
            assert(out@ =~= target);
        }
        out
    }
}

/// How the report is delivered.
#[derive(Debug, Copy, Clone, PartialEq, Eq, Structural)]
pub enum OutputMode {
    Html,
    Json,
    Silent,
}

/// A misuse of the command line that aborts before any tool runs.
#[derive(Debug, Copy, Clone, PartialEq, Eq, Structural)]
pub enum OperatorError {
    ConflictingOutputModes,
    OutputPathWithSilent,
    ErrorExitWithoutSilent,
}

impl OperatorError {
    /// The diagnostic the operator sees.
    pub fn message(&self) -> (m: String)
        ensures
            *self == OperatorError::ConflictingOutputModes ==> m@
                == "Only ONE output format can be chosen"@,
            *self == OperatorError::OutputPathWithSilent ==> m@
                == "An output file cannot be combined with silent mode"@,
            *self == OperatorError::ErrorExitWithoutSilent ==> m@
                == "Exiting with an error code on issues requires silent mode"@,
    {
        match self {
            OperatorError::ConflictingOutputModes => String::from_str(
                "Only ONE output format can be chosen",
            ),
            OperatorError::OutputPathWithSilent => String::from_str(
                "An output file cannot be combined with silent mode",
            ),
            OperatorError::ErrorExitWithoutSilent => String::from_str(
                "Exiting with an error code on issues requires silent mode",
            ),
        }
    }
}

/// Chooses the output mode from the flags.  Naming two of the three modes
/// is an operator error, as is an output path with silent mode or the
/// error-exit flag outside silent mode; with no mode named the rich
/// document is the default.
pub fn select_output_mode(html: bool, json: bool, silent: bool, has_output_path: bool,
    error_exit: bool) -> (r: Result<OutputMode, OperatorError>)
    ensures
        ((html && json) || (html && silent) || (json && silent)) <==> r == Result::<
            OutputMode,
            OperatorError,
        >::Err(OperatorError::ConflictingOutputModes),
        !((html && json) || (html && silent) || (json && silent)) && has_output_path && silent
            <==> r == Result::<OutputMode, OperatorError>::Err(OperatorError::OutputPathWithSilent),
        !((html && json) || (html && silent) || (json && silent)) && !(has_output_path && silent)
            && error_exit && !silent <==> r == Result::<OutputMode, OperatorError>::Err(
            OperatorError::ErrorExitWithoutSilent,
        ),
        r is Ok ==> r == Result::<OutputMode, OperatorError>::Ok(
            if json {
                OutputMode::Json
            } else if silent {
                OutputMode::Silent
            } else {
                OutputMode::Html
            },
        ),
{
    if (html && json) || (html && silent) || (json && silent) {
        Err(OperatorError::ConflictingOutputModes)
    } else if has_output_path && silent {
        Err(OperatorError::OutputPathWithSilent)
    } else if error_exit && !silent {
        Err(OperatorError::ErrorExitWithoutSilent)
    } else if json {
        Ok(OutputMode::Json)
    } else if silent {
        Ok(OutputMode::Silent)
    } else {
        Ok(OutputMode::Html)
    }
}

/// Reads the depth flag; anything but the three deeper names is the
/// shallow default.
pub fn parse_depth(s: &str) -> (d: crate::tools::AnalysisDepth)
    ensures
        s@ == "deepest"@ ==> d == crate::tools::AnalysisDepth::Deepest,
        s@ == "deeper"@ ==> d == crate::tools::AnalysisDepth::Deeper,
        s@ == "deep"@ ==> d == crate::tools::AnalysisDepth::Deep,
        s@ != "deepest"@ && s@ != "deeper"@ && s@ != "deep"@ ==> d
            == crate::tools::AnalysisDepth::Shallow,
{
    proof {
        reveal_strlit("deepest");
        reveal_strlit("deeper");
        reveal_strlit("deep");
        assert("deepest"@.len() == 7 && "deeper"@.len() == 6 && "deep"@.len() == 4);
    }
    let t = String::from_str(s);
    if t == String::from_str("deepest") {
        crate::tools::AnalysisDepth::Deepest
    } else if t == String::from_str("deeper") {
        crate::tools::AnalysisDepth::Deeper
    } else if t == String::from_str("deep") {
        crate::tools::AnalysisDepth::Deep
    } else {
        crate::tools::AnalysisDepth::Shallow
    }
}

/// The default name of the rich document.
pub fn default_output_path() -> (r: String)
    ensures
        r@ == "index.html"@,
{
    String::from_str("index.html")
}

/// The diagnostic for a host without the sandbox runtime.
pub fn docker_missing_message() -> (r: String)
    ensures
        r@ == "Docker does not seem to be installed and is required."@,
{
    String::from_str("Docker does not seem to be installed and is required.")
}

/// The four well-known images pulled on preload, in order.
pub fn preload_images() -> (r: Vec<String>)
    ensures
        r@.len() == 4,
        r@[0]@ == "solc"@,
        r@[1]@ == "solium"@,
        r@[2]@ == "oyente"@,
        r@[3]@ == "mythril"@,
{
    let mut r: Vec<String> = Vec::new();
    r.push(String::from_str("solc"));
    r.push(String::from_str("solium"));
    r.push(String::from_str("oyente"));
    r.push(String::from_str("mythril"));
    r
}

/// The candidate paths of the sandbox runtime: every entry of the search
/// path, empty ones included, with `/docker` appended.
pub open spec fn docker_candidates_spec(s: Seq<char>, pos: int) -> Seq<Seq<char>>
    decreases s.len() - pos,
{
    if pos < 0 || pos > s.len() {
        Seq::empty()
    } else {
        let e0 = find_char(s, pos, ':');
        let e = if e0 < pos || e0 > s.len() {
            s.len() as int
        } else {
            e0
        };
        let entry = s.subrange(pos, e) + "/docker"@;
        if e < s.len() {
            seq![entry] + docker_candidates_spec(s, e + 1)
        } else {
            seq![entry]
        }
    }
}

/// Builds the candidate paths of the sandbox runtime from the value of the
/// executable search path.
pub fn docker_candidates(path_var: &str) -> (r: Vec<String>)
    ensures
        r.deep_view() == docker_candidates_spec(path_var@, 0),
{
    let v = chars_of(path_var);
    let mut acc: Vec<String> = Vec::new();
    let mut pos: usize = 0;
    let mut fin: bool = false;
    proof {
        assert(acc.deep_view() + docker_candidates_spec(v@, 0) =~= docker_candidates_spec(
            v@,
            0,
        ));
    }
    while !fin
        invariant
            pos <= v@.len(),
            v@ == path_var@,
            docker_candidates_spec(v@, 0) == acc.deep_view() + (if fin {
                Seq::<Seq<char>>::empty()
            } else {
                docker_candidates_spec(v@, pos as int)
            }),
        decreases (if fin {
            0int
        } else {
            v@.len() - pos + 1
        }),
    {
        let e = find_char_x(&v, pos, ':');
        let seg = string_range(&v, pos, e);
        let entry = seg.concat("/docker");
        let ghost prev = acc.deep_view();
        let ghost entv = entry@;
        acc.push(entry);
        proof {
            assert(acc.deep_view() =~= prev.push(entv));
            assert(entv == v@.subrange(pos as int, e as int) + "/docker"@);
            if e < v@.len() {
                assert(prev + (seq![entv] + docker_candidates_spec(v@, e as int + 1))
                    =~= acc.deep_view() + docker_candidates_spec(v@, e as int + 1));
            } else {
                assert(prev + seq![entv] =~= acc.deep_view());
                assert(acc.deep_view() + Seq::<Seq<char>>::empty() =~= acc.deep_view());
            }
        }
        if e >= v.len() {
            fin = true;
        } else {
            pos = e + 1;
        }
    }
    acc
}

/// Whether any candidate was found to exist.
pub fn docker_available(found: &Vec<bool>) -> (b: bool)
    ensures
        b <==> exists|i: int| 0 <= i < found@.len() && found@[i],
{
    let mut i: usize = 0;
    while i < found.len()
        invariant
            i <= found@.len(),
            forall|k: int| 0 <= k < i ==> !found@[k],
        decreases found@.len() - i,
    {
        if found[i] {
            return true;
        }
        i = i + 1;
    }
    false
}


/// Assembles the composite report from the four adapters' results.  Each
/// tool's entry is exactly what its adapter returned; nothing is added,
/// dropped or reordered.
pub fn assemble_report(contract_file: String, source_text: Option<String>, solc: Option<
    SolcResponse,
>, solium: Option<SoliumResponse>, mythril: Option<MythrilResponse>, oyente: Option<
    OyenteResponse,
>, version: String) -> (r: Report)
    ensures
        r.contract_file == contract_file,
        r.source_text == source_text,
        r.solc == solc,
        r.solium == solium,
        r.mythril == mythril,
        r.oyente == oyente,
        r.version == version,
{
    Report { contract_file, source_text, solc, solium, mythril, oyente, version }
}

/// In the pass/fail summary the solium tool is reported exactly when its
/// run failed, could not be launched, or found at least one issue: an
/// empty issue list is clean and is not reported.
pub proof fn lemma_silent_solium_classification(rv: ReportV)
    ensures
        problem_names(rv).contains("solium"@) <==> solium_problem(rv.solium),
{
    reveal_strlit("solc");
    reveal_strlit("solium");
    reveal_strlit("mythril");
    reveal_strlit("oyente");
    assert("solc"@.len() == 4 && "solium"@.len() == 6 && "mythril"@.len() == 7 && "oyente"@.len()
        == 6);
    let p1 = if solc_problem(rv.solc) {
        seq!["solc"@]
    } else {
        Seq::<Seq<char>>::empty()
    };
    let p2 = if solium_problem(rv.solium) {
        seq!["solium"@]
    } else {
        Seq::<Seq<char>>::empty()
    };
    let p3 = if mythril_problem(rv.mythril) {
        seq!["mythril"@]
    } else {
        Seq::<Seq<char>>::empty()
    };
    let p4 = if oyente_problem(rv.oyente) {
        seq!["oyente"@]
    } else {
        Seq::<Seq<char>>::empty()
    };
    let all = problem_names(rv);
    assert(all == p1 + p2 + p3 + p4);
    if solium_problem(rv.solium) {
        assert(all[p1.len() as int] == "solium"@);
        assert(all.contains("solium"@));
    } else {
        assert forall|q: int| 0 <= q < all.len() implies all[q] != "solium"@ by {
            if q < p1.len() {
                assert(all[q] == "solc"@);
            } else if q < p1.len() + p3.len() {
                assert(all[q] == "mythril"@);
            } else {
                assert(all[q] == "oyente"@);
                assert("oyente"@[0] == 'o' && "solium"@[0] == 's');
            }
        }
        assert(!all.contains("solium"@));
    }
}


pub proof fn lemma_wf_issue(it: SoliumIssueV)
    ensures
        wf_jv(jv_of_issue(it)),
{
    lemma_dec_chars_is_num_token(it.line as nat);
    lemma_dec_chars_is_num_token(it.column as nat);
    let ps = jv_of_issue(it)->Obj_0;
    assert forall|q: int| 0 <= q < ps.len() implies wf_jv(#[trigger] ps[q].1) by {
        if q == 1 {
            assert(ps[1].1 == Jv::Num(dec_chars(it.line as nat)));
        } else if q == 2 {
            assert(ps[2].1 == Jv::Num(dec_chars(it.column as nat)));
        }
    }
}

pub proof fn lemma_wf_issues(l: Seq<SoliumIssueV>, idx: int)
    ensures
        forall|q: int| 0 <= q < jv_of_issues(l, idx).len() ==> wf_jv(
            #[trigger] jv_of_issues(l, idx)[q],
        ),
    decreases l.len() - idx,
{
    if 0 <= idx < l.len() {
        lemma_wf_issue(l[idx]);
        lemma_wf_issues(l, idx + 1);
        assert forall|q: int| 0 <= q < jv_of_issues(l, idx).len() implies wf_jv(
            #[trigger] jv_of_issues(l, idx)[q],
        ) by {
            if q == 0 {
                assert(jv_of_issues(l, idx)[0] == jv_of_issue(l[idx]));
            } else {
                assert(jv_of_issues(l, idx)[q] == jv_of_issues(l, idx + 1)[q - 1]);
            }
        }
    }
}

pub proof fn lemma_wf_solc(o: SolcOutputV)
    ensures
        wf_jv(jv_of_solc(o)),
{
    lemma_wf_solc_contracts(o.contracts, 0);
    let members = jv_of_solc(o)->Obj_0;
    assert forall|q: int| 0 <= q < members.len() implies wf_jv(#[trigger] members[q].1) by {
        if q == 0 {
            assert(members[0].1 == Jv::Obj(jv_of_solc_contracts(o.contracts, 0)));
        }
    }
}

pub proof fn lemma_wf_solc_contracts(cs: Seq<(Seq<char>, SolcContractV)>, idx: int)
    ensures
        forall|q: int| 0 <= q < jv_of_solc_contracts(cs, idx).len() ==> wf_jv(
            #[trigger] jv_of_solc_contracts(cs, idx)[q].1,
        ),
    decreases cs.len() - idx,
{
    if 0 <= idx < cs.len() {
        lemma_wf_solc_contracts(cs, idx + 1);
        assert(wf_jv(jv_of_solc_contract(cs[idx].1))) by {
            let ps = jv_of_solc_contract(cs[idx].1)->Obj_0;
            assert(forall|q: int| 0 <= q < ps.len() ==> wf_jv(#[trigger] ps[q].1));
        }
        assert forall|q: int| 0 <= q < jv_of_solc_contracts(cs, idx).len() implies wf_jv(
            #[trigger] jv_of_solc_contracts(cs, idx)[q].1,
        ) by {
            if q == 0 {
                assert(jv_of_solc_contracts(cs, idx)[0].1 == jv_of_solc_contract(cs[idx].1));
            } else {
                assert(jv_of_solc_contracts(cs, idx)[q] == jv_of_solc_contracts(cs, idx + 1)[q
                    - 1]);
            }
        }
    }
}

pub proof fn lemma_wf_mythril_issue(it: MythrilIssueV)
    ensures
        wf_jv(jv_of_mythril_issue(it)),
{
    lemma_dec_chars_is_num_token(it.lineno as nat);
    lemma_dec_chars_is_num_token(it.address as nat);
    let ps = jv_of_mythril_issue(it)->Obj_0;
    assert forall|q: int| 0 <= q < ps.len() implies wf_jv(#[trigger] ps[q].1) by {
        if q == 7 {
            assert(ps[7].1 == Jv::Num(dec_chars(it.lineno as nat)));
        } else if q == 8 {
            assert(ps[8].1 == Jv::Num(dec_chars(it.address as nat)));
        }
    }
}

pub proof fn lemma_wf_mythril_issues(l: Seq<MythrilIssueV>, idx: int)
    ensures
        forall|q: int| 0 <= q < jv_of_mythril_issues(l, idx).len() ==> wf_jv(
            #[trigger] jv_of_mythril_issues(l, idx)[q],
        ),
    decreases l.len() - idx,
{
    if 0 <= idx < l.len() {
        lemma_wf_mythril_issue(l[idx]);
        lemma_wf_mythril_issues(l, idx + 1);
        assert forall|q: int| 0 <= q < jv_of_mythril_issues(l, idx).len() implies wf_jv(
            #[trigger] jv_of_mythril_issues(l, idx)[q],
        ) by {
            if q == 0 {
                assert(jv_of_mythril_issues(l, idx)[0] == jv_of_mythril_issue(l[idx]));
            } else {
                assert(jv_of_mythril_issues(l, idx)[q] == jv_of_mythril_issues(l, idx + 1)[q
                    - 1]);
            }
        }
    }
}

pub proof fn lemma_wf_mythril(o: MythrilOutputV)
    ensures
        wf_jv(jv_of_mythril(o)),
{
    lemma_wf_mythril_issues(o.issues, 0);
    let members = jv_of_mythril(o)->Obj_0;
    assert forall|q: int| 0 <= q < members.len() implies wf_jv(#[trigger] members[q].1) by {
        if q == 1 {
            assert(members[1].1 == jv_of_opt_str(o.error));
        } else if q == 2 {
            assert(members[2].1 == Jv::Arr(jv_of_mythril_issues(o.issues, 0)));
        }
    }
}

pub proof fn lemma_wf_strings(l: Seq<Seq<char>>, idx: int)
    ensures
        forall|q: int| 0 <= q < jv_of_strings(l, idx).len() ==> wf_jv(
            #[trigger] jv_of_strings(l, idx)[q],
        ),
    decreases l.len() - idx,
{
    if 0 <= idx < l.len() {
        lemma_wf_strings(l, idx + 1);
        assert forall|q: int| 0 <= q < jv_of_strings(l, idx).len() implies wf_jv(
            #[trigger] jv_of_strings(l, idx)[q],
        ) by {
            if q == 0 {
                assert(jv_of_strings(l, idx)[0] == Jv::Str(l[idx]));
            } else {
                assert(jv_of_strings(l, idx)[q] == jv_of_strings(l, idx + 1)[q - 1]);
            }
        }
    }
}

pub proof fn lemma_wf_oyente_contract(c: OyenteContractV)
    ensures
        wf_jv(jv_of_oyente_contract(c)),
{
    let v = c.vulnerabilities;
    lemma_wf_strings(v.integer_overflow, 0);
    lemma_wf_strings(v.integer_underflow, 0);
    lemma_wf_strings(v.callstack, 0);
    lemma_wf_strings(v.money_concurrency, 0);
    lemma_wf_strings(v.time_dependency, 0);
    lemma_wf_strings(v.reentrancy, 0);
    lemma_wf_strings(v.assertion_failure, 0);
    lemma_wf_strings(v.parity_multisig_bug_2, 0);
    let vps = jv_of_vulns(v)->Obj_0;
    assert(wf_jv(jv_of_vulns(v))) by {
        assert forall|q: int| 0 <= q < vps.len() implies wf_jv(#[trigger] vps[q].1) by {
            if q == 0 {
                assert(vps[0].1 == Jv::Arr(jv_of_strings(v.integer_overflow, 0)));
            } else if q == 1 {
                assert(vps[1].1 == Jv::Arr(jv_of_strings(v.integer_underflow, 0)));
            } else if q == 2 {
                assert(vps[2].1 == Jv::Arr(jv_of_strings(v.callstack, 0)));
            } else if q == 3 {
                assert(vps[3].1 == Jv::Arr(jv_of_strings(v.money_concurrency, 0)));
            } else if q == 4 {
                assert(vps[4].1 == Jv::Arr(jv_of_strings(v.time_dependency, 0)));
            } else if q == 5 {
                assert(vps[5].1 == Jv::Arr(jv_of_strings(v.reentrancy, 0)));
            } else if q == 6 {
                assert(vps[6].1 == Jv::Arr(jv_of_strings(v.assertion_failure, 0)));
            } else if q == 7 {
                assert(vps[7].1 == Jv::Arr(jv_of_strings(v.parity_multisig_bug_2, 0)));
            }
        }
    }
    let ps = jv_of_oyente_contract(c)->Obj_0;
    assert forall|q: int| 0 <= q < ps.len() implies wf_jv(#[trigger] ps[q].1) by {
        if q == 1 {
            assert(ps[1].1 == jv_of_vulns(v));
        }
    }
}

pub proof fn lemma_wf_oyente_contracts(cs: Seq<(Seq<char>, OyenteContractV)>, idx: int)
    ensures
        forall|q: int| 0 <= q < jv_of_oyente_contracts(cs, idx).len() ==> wf_jv(
            #[trigger] jv_of_oyente_contracts(cs, idx)[q].1,
        ),
    decreases cs.len() - idx,
{
    if 0 <= idx < cs.len() {
        lemma_wf_oyente_contract(cs[idx].1);
        lemma_wf_oyente_contracts(cs, idx + 1);
        assert forall|q: int| 0 <= q < jv_of_oyente_contracts(cs, idx).len() implies wf_jv(
            #[trigger] jv_of_oyente_contracts(cs, idx)[q].1,
        ) by {
            if q == 0 {
                assert(jv_of_oyente_contracts(cs, idx)[0].1 == jv_of_oyente_contract(
                    cs[idx].1,
                ));
            } else {
                assert(jv_of_oyente_contracts(cs, idx)[q] == jv_of_oyente_contracts(
                    cs,
                    idx + 1,
                )[q - 1]);
            }
        }
    }
}

pub proof fn lemma_wf_oyente_files(fs: Seq<(Seq<char>, OyenteFileV)>, idx: int)
    ensures
        forall|q: int| 0 <= q < jv_of_oyente_files(fs, idx).len() ==> wf_jv(
            #[trigger] jv_of_oyente_files(fs, idx)[q].1,
        ),
    decreases fs.len() - idx,
{
    if 0 <= idx < fs.len() {
        lemma_wf_oyente_contracts(fs[idx].1.contracts, 0);
        lemma_wf_oyente_files(fs, idx + 1);
        assert forall|q: int| 0 <= q < jv_of_oyente_files(fs, idx).len() implies wf_jv(
            #[trigger] jv_of_oyente_files(fs, idx)[q].1,
        ) by {
            if q == 0 {
                assert(jv_of_oyente_files(fs, idx)[0].1 == Jv::Obj(jv_of_oyente_contracts(
                    fs[idx].1.contracts,
                    0,
                )));
            } else {
                assert(jv_of_oyente_files(fs, idx)[q] == jv_of_oyente_files(fs, idx + 1)[q
                    - 1]);
            }
        }
    }
}

pub proof fn lemma_wf_oyente(o: OyenteOutputV)
    ensures
        wf_jv(jv_of_oyente(o)),
{
    lemma_wf_oyente_files(o.files, 0);
}

pub proof fn lemma_wf_tool_entry(error: bool, result: Jv)
    requires
        wf_jv(result),
    ensures
        wf_jv(jv_of_tool_entry(error, result)),
{
    let ps = jv_of_tool_entry(error, result)->Obj_0;
    assert forall|q: int| 0 <= q < ps.len() implies wf_jv(#[trigger] ps[q].1) by {
        if q == 1 {
            assert(ps[1].1 == result);
        }
    }
}

/// The whole machine-readable report is a well-formed document.
pub proof fn lemma_wf_report(rv: ReportV)
    ensures
        wf_jv(jv_of_report(rv)),
{
    match rv.solc {
        Some(SolcResponseV::Success(o)) => {
            lemma_wf_solc(o);
            lemma_wf_tool_entry(false, jv_of_solc(o));
        },
        Some(SolcResponseV::Failure(m)) => {
            lemma_wf_tool_entry(true, Jv::Str(m));
        },
        None => {
            lemma_wf_tool_entry(false, Jv::Str(Seq::empty()));
        },
    }
    match rv.solium {
        Some(SoliumResponseV::Success(l)) => {
            lemma_wf_issues(l, 0);
            lemma_wf_tool_entry(false, Jv::Arr(jv_of_issues(l, 0)));
        },
        Some(SoliumResponseV::Failure(m)) => {
            lemma_wf_tool_entry(true, Jv::Str(m));
        },
        None => {
            lemma_wf_tool_entry(false, Jv::Str(Seq::empty()));
        },
    }
    match rv.mythril {
        Some(MythrilResponseV::Success(o)) => {
            lemma_wf_mythril(o);
            lemma_wf_tool_entry(false, jv_of_mythril(o));
        },
        Some(MythrilResponseV::Failure(m)) => {
            lemma_wf_tool_entry(true, Jv::Str(m));
        },
        None => {
            lemma_wf_tool_entry(false, Jv::Str(Seq::empty()));
        },
    }
    match rv.oyente {
        Some(OyenteResponseV::Success(o, _)) => {
            lemma_wf_oyente(o);
            lemma_wf_tool_entry(false, jv_of_oyente(o));
        },
        Some(OyenteResponseV::Failure(m)) => {
            lemma_wf_tool_entry(true, Jv::Str(m));
        },
        None => {
            lemma_wf_tool_entry(false, Jv::Str(Seq::empty()));
        },
    }
    let members = jv_of_report(rv)->Obj_0;
    assert forall|q: int| 0 <= q < members.len() implies wf_jv(#[trigger] members[q].1) by {
        if q == 0 {
            assert(members[0].1 == jv_of_solc_entry(rv.solc));
        } else if q == 1 {
            assert(members[1].1 == jv_of_solium_entry(rv.solium));
        } else if q == 2 {
            assert(members[2].1 == jv_of_mythril_entry(rv.mythril));
        } else if q == 3 {
            assert(members[3].1 == jv_of_oyente_entry(rv.oyente));
        } else if q == 4 {
            assert(members[4].1 == jv_of_opt_str(rv.source_text));
        } else {
            assert(members[5].1 == Jv::Str(rv.version));
        }
    }
}

/// Round trip of the machine-readable report: the emitted JSON text parses
/// back to a structurally equal document, so re-serializing it yields the
/// same text.
pub proof fn lemma_report_json_round_trip(rv: ReportV)
    ensures
        parse_json_spec(emit_jv(jv_of_report(rv))) == Some(jv_of_report(rv)),
{
    lemma_wf_report(rv);
    lemma_parse_emit(jv_of_report(rv));
}

} // verus!
