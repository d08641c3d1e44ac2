//! Typed outputs of the analysis tools, and their decodings from JSON
//! documents.

use vstd::prelude::*;
use crate::json::Json;
use crate::json::Jv;
use crate::json::m_views;
use crate::solium::all_digits;
use crate::solium::digits_val;
use crate::strutil::chars_of;

verus! {

/// First member of an object with the given key, from `idx` on.
pub open spec fn obj_get(ps: Seq<(Seq<char>, Jv)>, k: Seq<char>, idx: int) -> Option<Jv>
    decreases ps.len() - idx,
{
    if idx < 0 || idx >= ps.len() {
        None
    } else if ps[idx].0 == k {
        Some(ps[idx].1)
    } else {
        obj_get(ps, k, idx + 1)
    }
}

fn obj_get_x<'a>(ps: &'a Vec<(String, Json)>, k: &String) -> (r: Option<&'a Json>)
    ensures
        r matches Some(j) ==> obj_get(m_views(ps@), k@, 0) == Some(j@),
        r is None ==> obj_get(m_views(ps@), k@, 0) is None,
{
    let mut i: usize = 0;
    while i < ps.len()
        invariant
            i <= ps@.len(),
            obj_get(m_views(ps@), k@, 0) == obj_get(m_views(ps@), k@, i as int),
        decreases ps@.len() - i,
    {
        proof {
            assert(m_views(ps@)[i as int] == (ps@[i as int].0@, ps@[i as int].1@));
        }
        if ps[i].0 == *k {
            return Some(&ps[i].1);
        }
        i = i + 1;
    }
    None
}

/// The `u32` a JSON number token stands for: plain decimal digits whose
/// value fits; anything else is a decoding error.
pub open spec fn u32_of_token(t: Seq<char>) -> Option<u32> {
    if t.len() > 0 && all_digits(t) && digits_val(t) <= u32::MAX {
        Some(digits_val(t) as u32)
    } else {
        None
    }
}

fn u32_from_token(t: &String) -> (r: Option<u32>)
    ensures
        r == u32_of_token(t@),
{
    let v = chars_of(t.as_str());
    if v.len() == 0 {
        return None;
    }
    let mut val: u32 = 0;
    let mut i: usize = 0;
    while i < v.len()
        invariant
            i <= v@.len(),
            v@ == t@,
            all_digits(t@.take(i as int)),
            val == digits_val(t@.take(i as int)),
            digits_val(t@.take(i as int)) <= u32::MAX,
        decreases v@.len() - i,
    {
        let c = v[i];
        if !('0' <= c && c <= '9') {
            proof {
                assert(t@[i as int] == c);
                assert(!all_digits(t@));
            }
            return None;
        }
        let d: u32 = (c as u32) - ('0' as u32);
        proof {
            assert(t@.take(i as int + 1).drop_last() =~= t@.take(i as int));
            assert(t@.take(i as int + 1).last() == c);
            assert(all_digits(t@.take(i as int + 1))) by {
                assert(forall|q: int| 0 <= q < i ==> #[trigger] t@.take(i as int + 1)[q]
                    == t@.take(i as int)[q]);
            }
        }
        if val > u32::MAX / 10 || (val == u32::MAX / 10 && d > u32::MAX % 10) {
            proof {
                assert(digits_val(t@.take(i as int + 1)) == val * 10 + d);
                assert(val * 10 + d > u32::MAX);
                assert(all_digits(t@) ==> digits_val(t@) > u32::MAX) by {
                    if all_digits(t@) {
                        crate::solium::lemma_digits_val_prefix(t@, i as int + 1);
                    }
                }
            }
            return None;
        }
        val = val * 10 + d;
        i = i + 1;
    }
    proof {
        assert(t@.take(t@.len() as int) =~= t@);
    }
    Some(val)
}

/// One compiled contract as the solc tool reports it.
pub struct SolcContract {
    pub abi: String,
    pub bin: String,
}

pub struct SolcContractV {
    pub abi: Seq<char>,
    pub bin: Seq<char>,
}

impl DeepView for SolcContract {
    type V = SolcContractV;

    open spec fn deep_view(&self) -> SolcContractV {
        SolcContractV { abi: self.abi@, bin: self.bin@ }
    }
}

/// What the solc tool prints on success: a mapping from contract id to
/// compiled artifacts, and a version string.  The mapping keeps the JSON
/// member order.
pub struct SolcOutput {
    pub contracts: Vec<(String, SolcContract)>,
    pub version: String,
}

pub struct SolcOutputV {
    pub contracts: Seq<(Seq<char>, SolcContractV)>,
    pub version: Seq<char>,
}

impl DeepView for SolcOutput {
    type V = SolcOutputV;

    open spec fn deep_view(&self) -> SolcOutputV {
        SolcOutputV { contracts: self.contracts.deep_view(), version: self.version@ }
    }
}

/// Decoding of one contract entry.
pub open spec fn solc_contract_of(v: Jv) -> Option<SolcContractV> {
    match v {
        Jv::Obj(ps) => {
            match (obj_get(ps, "abi"@, 0), obj_get(ps, "bin"@, 0)) {
                (Some(Jv::Str(a)), Some(Jv::Str(b))) => Some(SolcContractV { abi: a, bin: b }),
                _ => None,
            }
        },
        _ => None,
    }
}

/// Decoding of the members of the `contracts` object, from `idx` on.
pub open spec fn solc_contracts_of(ps: Seq<(Seq<char>, Jv)>, idx: int) -> Option<
    Seq<(Seq<char>, SolcContractV)>,
>
    decreases ps.len() - idx,
{
    if idx < 0 {
        None
    } else if idx >= ps.len() {
        Some(Seq::empty())
    } else {
        match solc_contract_of(ps[idx].1) {
            None => None,
            Some(c) => match solc_contracts_of(ps, idx + 1) {
                None => None,
                Some(rest) => Some(seq![(ps[idx].0, c)] + rest),
            },
        }
    }
}

/// Decoding of a whole solc document.
pub open spec fn solc_of_jv(v: Jv) -> Option<SolcOutputV> {
    match v {
        Jv::Obj(ps) => {
            match (obj_get(ps, "contracts"@, 0), obj_get(ps, "version"@, 0)) {
                (Some(Jv::Obj(cs)), Some(Jv::Str(ver))) => {
                    match solc_contracts_of(cs, 0) {
                        None => None,
                        Some(list) => Some(SolcOutputV { contracts: list, version: ver }),
                    }
                },
                _ => None,
            }
        },
        _ => None,
    }
}

fn solc_contract_from_json(j: &Json) -> (r: Option<SolcContract>)
    ensures
        r matches Some(c) ==> solc_contract_of(j@) == Some(c.deep_view()),
        r is None ==> solc_contract_of(j@) is None,
{
    match j {
        Json::Obj(ps) => {
            let abi_key = String::from_str("abi");
            let bin_key = String::from_str("bin");
            let a = match obj_get_x(ps, &abi_key) {
                Some(Json::Str(s)) => s.clone(),
                _ => {
                    return None;
                },
            };
            let b = match obj_get_x(ps, &bin_key) {
                Some(Json::Str(s)) => s.clone(),
                _ => {
                    return None;
                },
            };
            Some(SolcContract { abi: a, bin: b })
        },
        _ => None,
    }
}

/// Decodes a parsed JSON document into a solc output, exactly when it has
/// the expected shape.
pub fn solc_from_json(j: &Json) -> (r: Option<SolcOutput>)
    ensures
        r matches Some(o) ==> solc_of_jv(j@) == Some(o.deep_view()),
        r is None ==> solc_of_jv(j@) is None,
{
    match j {
        Json::Obj(ps) => {
            let ckey = String::from_str("contracts");
            let vkey = String::from_str("version");
            let verj = match obj_get_x(ps, &vkey) {
                Some(x) => x,
                None => {
                    return None;
                },
            };
            let ver = match verj {
                Json::Str(s) => s.clone(),
                _ => {
                    return None;
                },
            };
            let csj = match obj_get_x(ps, &ckey) {
                Some(x) => x,
                None => {
                    return None;
                },
            };
            let cs = match csj {
                Json::Obj(cs) => cs,
                _ => {
                    return None;
                },
            };
            let ghost csv = m_views(cs@);
            let ghost verv = ver@;
            proof {
                assert(j@ == Jv::Obj(m_views(ps@)));
                assert(csj@ == Jv::Obj(csv));
                assert(verj@ == Jv::Str(verv));
                assert(solc_of_jv(j@) == (match solc_contracts_of(csv, 0) {
                    Some(list) => Some(SolcOutputV { contracts: list, version: verv }),
                    None => None,
                }));
            }
            let mut acc: Vec<(String, SolcContract)> = Vec::new();
            let mut i: usize = 0;
            proof {
                assert(acc.deep_view() =~= Seq::<(Seq<char>, SolcContractV)>::empty());
                match solc_contracts_of(csv, 0) {
                    Some(rest) => {
                        assert(acc.deep_view() + rest =~= rest);
                    },
                    None => {},
                }
            }
            while i < cs.len()
                invariant
                    i <= cs@.len(),
                    csv == m_views(cs@),
                    solc_of_jv(j@) == (match solc_contracts_of(csv, 0) {
                        Some(list) => Some(SolcOutputV { contracts: list, version: verv }),
                        None => None,
                    }),
                    (match solc_contracts_of(csv, i as int) {
                        Some(rest) => solc_contracts_of(csv, 0) == Some(acc.deep_view() + rest),
                        None => solc_contracts_of(csv, 0) is None,
                    }),
                decreases cs@.len() - i,
            {
                let name = cs[i].0.clone();
                match solc_contract_from_json(&cs[i].1) {
                    None => {
                        proof {
                            assert(csv[i as int].1 == cs@[i as int].1@);
                        }
                        return None;
                    },
                    Some(c) => {
                        let ghost prevdv = acc.deep_view();
                        let ghost cdv = c.deep_view();
                        let ghost namev = name@;
                        acc.push((name, c));
                        proof {
                            assert(csv[i as int] == (cs@[i as int].0@, cs@[i as int].1@));
                            assert(acc.deep_view() =~= prevdv.push((namev, cdv)));
                            match solc_contracts_of(csv, i as int + 1) {
                                Some(rest) => {
                                    assert(prevdv + (seq![(csv[i as int].0, cdv)] + rest)
                                        =~= acc.deep_view() + rest);
                                },
                                None => {},
                            }
                        }
                    },
                }
                i = i + 1;
            }
            proof {
                assert(solc_contracts_of(csv, i as int) == Some(
                    Seq::<(Seq<char>, SolcContractV)>::empty(),
                ));
                assert(acc.deep_view() + Seq::<(Seq<char>, SolcContractV)>::empty()
                    =~= acc.deep_view());
            }
            Some(SolcOutput { contracts: acc, version: ver })
        },
        _ => None,
    }
}


/// One finding reported by the mythril tool.
pub struct MythrilIssue {
    pub title: String,
    pub description: String,
    pub type_: String,
    pub code: String,
    pub function: String,
    pub debug: String,
    pub filename: String,
    pub lineno: u32,
    pub address: u32,
}

pub struct MythrilIssueV {
    pub title: Seq<char>,
    pub description: Seq<char>,
    pub kind: Seq<char>,
    pub code: Seq<char>,
    pub function: Seq<char>,
    pub debug: Seq<char>,
    pub filename: Seq<char>,
    pub lineno: u32,
    pub address: u32,
}

impl DeepView for MythrilIssue {
    type V = MythrilIssueV;

    open spec fn deep_view(&self) -> MythrilIssueV {
        MythrilIssueV {
            title: self.title@,
            description: self.description@,
            kind: self.type_@,
            code: self.code@,
            function: self.function@,
            debug: self.debug@,
            filename: self.filename@,
            lineno: self.lineno,
            address: self.address,
        }
    }
}

/// What the mythril tool prints on success.
pub struct MythrilOutput {
    pub success: bool,
    pub error: Option<String>,
    pub issues: Vec<MythrilIssue>,
}

pub struct MythrilOutputV {
    pub success: bool,
    pub error: Option<Seq<char>>,
    pub issues: Seq<MythrilIssueV>,
}

impl DeepView for MythrilOutput {
    type V = MythrilOutputV;

    open spec fn deep_view(&self) -> MythrilOutputV {
        MythrilOutputV {
            success: self.success,
            error: self.error.deep_view(),
            issues: self.issues.deep_view(),
        }
    }
}

/// Decoding of one finding.
pub open spec fn mythril_issue_of(v: Jv) -> Option<MythrilIssueV> {
    match v {
        Jv::Obj(ps) => {
            match (
                obj_get(ps, "title"@, 0),
                obj_get(ps, "description"@, 0),
                obj_get(ps, "type"@, 0),
                obj_get(ps, "code"@, 0),
                obj_get(ps, "function"@, 0),
                obj_get(ps, "debug"@, 0),
                obj_get(ps, "filename"@, 0),
                obj_get(ps, "lineno"@, 0),
                obj_get(ps, "address"@, 0),
            ) {
                (
                    Some(Jv::Str(title)),
                    Some(Jv::Str(description)),
                    Some(Jv::Str(kind)),
                    Some(Jv::Str(code)),
                    Some(Jv::Str(function)),
                    Some(Jv::Str(debug)),
                    Some(Jv::Str(filename)),
                    Some(Jv::Num(lt)),
                    Some(Jv::Num(at)),
                ) => {
                    match (u32_of_token(lt), u32_of_token(at)) {
                        (Some(lineno), Some(address)) => Some(
                            MythrilIssueV {
                                title,
                                description,
                                kind,
                                code,
                                function,
                                debug,
                                filename,
                                lineno,
                                address,
                            },
                        ),
                        _ => None,
                    }
                },
                _ => None,
            }
        },
        _ => None,
    }
}

/// Decoding of the elements of the `issues` array, from `idx` on.
pub open spec fn mythril_issues_of(es: Seq<Jv>, idx: int) -> Option<Seq<MythrilIssueV>>
    decreases es.len() - idx,
{
    if idx < 0 {
        None
    } else if idx >= es.len() {
        Some(Seq::empty())
    } else {
        match mythril_issue_of(es[idx]) {
            None => None,
            Some(it) => match mythril_issues_of(es, idx + 1) {
                None => None,
                Some(rest) => Some(seq![it] + rest),
            },
        }
    }
}

/// Decoding of a whole mythril document.  A missing or null `error` member
/// stands for no error text.
pub open spec fn mythril_of_jv(v: Jv) -> Option<MythrilOutputV> {
    match v {
        Jv::Obj(ps) => {
            match (obj_get(ps, "success"@, 0), obj_get(ps, "issues"@, 0)) {
                (Some(Jv::Bool(success)), Some(Jv::Arr(es))) => {
                    let err = match obj_get(ps, "error"@, 0) {
                        None => Some(Option::<Seq<char>>::None),
                        Some(Jv::Null) => Some(Option::<Seq<char>>::None),
                        Some(Jv::Str(e)) => Some(Option::<Seq<char>>::Some(e)),
                        Some(_) => None,
                    };
                    match (err, mythril_issues_of(es, 0)) {
                        (Some(error), Some(issues)) => Some(
                            MythrilOutputV { success, error, issues },
                        ),
                        _ => None,
                    }
                },
                _ => None,
            }
        },
        _ => None,
    }
}

fn mythril_issue_from_json(j: &Json) -> (r: Option<MythrilIssue>)
    ensures
        r matches Some(it) ==> mythril_issue_of(j@) == Some(it.deep_view()),
        r is None ==> mythril_issue_of(j@) is None,
{
    match j {
        Json::Obj(ps) => {
            let title = match obj_get_x(ps, &String::from_str("title")) {
                Some(Json::Str(x)) => x.clone(),
                _ => {
                    return None;
                },
            };
            let description = match obj_get_x(ps, &String::from_str("description")) {
                Some(Json::Str(x)) => x.clone(),
                _ => {
                    return None;
                },
            };
            let type_ = match obj_get_x(ps, &String::from_str("type")) {
                Some(Json::Str(x)) => x.clone(),
                _ => {
                    return None;
                },
            };
            let code = match obj_get_x(ps, &String::from_str("code")) {
                Some(Json::Str(x)) => x.clone(),
                _ => {
                    return None;
                },
            };
            let function = match obj_get_x(ps, &String::from_str("function")) {
                Some(Json::Str(x)) => x.clone(),
                _ => {
                    return None;
                },
            };
            let debug = match obj_get_x(ps, &String::from_str("debug")) {
                Some(Json::Str(x)) => x.clone(),
                _ => {
                    return None;
                },
            };
            let filename = match obj_get_x(ps, &String::from_str("filename")) {
                Some(Json::Str(x)) => x.clone(),
                _ => {
                    return None;
                },
            };
            let lineno = match obj_get_x(ps, &String::from_str("lineno")) {
                Some(Json::Num(t)) => match u32_from_token(t) {
                    Some(n) => n,
                    None => {
                        return None;
                    },
                },
                _ => {
                    return None;
                },
            };
            let address = match obj_get_x(ps, &String::from_str("address")) {
                Some(Json::Num(t)) => match u32_from_token(t) {
                    Some(n) => n,
                    None => {
                        return None;
                    },
                },
                _ => {
                    return None;
                },
            };
            Some(
                MythrilIssue {
                    title,
                    description,
                    type_,
                    code,
                    function,
                    debug,
                    filename,
                    lineno,
                    address,
                },
            )
        },
        _ => None,
    }
}

/// Decodes a parsed JSON document into a mythril output, exactly when it
/// has the expected shape.
pub fn mythril_from_json(j: &Json) -> (r: Option<MythrilOutput>)
    ensures
        r matches Some(o) ==> mythril_of_jv(j@) == Some(o.deep_view()),
        r is None ==> mythril_of_jv(j@) is None,
{
    match j {
        Json::Obj(ps) => {
            let success = match obj_get_x(ps, &String::from_str("success")) {
                Some(Json::Bool(b)) => *b,
                _ => {
                    return None;
                },
            };
            let error: Option<String> = match obj_get_x(ps, &String::from_str("error")) {
                None => None,
                Some(Json::Null) => None,
                Some(Json::Str(e)) => Some(e.clone()),
                Some(_) => {
                    return None;
                },
            };
            let esj = match obj_get_x(ps, &String::from_str("issues")) {
                Some(x) => x,
                None => {
                    return None;
                },
            };
            let es = match esj {
                Json::Arr(es) => es,
                _ => {
                    return None;
                },
            };
            let ghost esv = crate::json::j_views(es@);
            let ghost errv = error.deep_view();
            proof {
                assert(j@ == Jv::Obj(m_views(ps@)));
                assert(esj@ == Jv::Arr(esv));
                assert(mythril_of_jv(j@) == (match mythril_issues_of(esv, 0) {
                    Some(issues) => Some(
                        MythrilOutputV { success, error: errv, issues },
                    ),
                    None => None,
                }));
            }
            let mut acc: Vec<MythrilIssue> = Vec::new();
            let mut i: usize = 0;
            proof {
                assert(acc.deep_view() =~= Seq::<MythrilIssueV>::empty());
                match mythril_issues_of(esv, 0) {
                    Some(rest) => {
                        assert(acc.deep_view() + rest =~= rest);
                    },
                    None => {},
                }
            }
            while i < es.len()
                invariant
                    i <= es@.len(),
                    esv == crate::json::j_views(es@),
                    mythril_of_jv(j@) == (match mythril_issues_of(esv, 0) {
                        Some(issues) => Some(
                            MythrilOutputV { success, error: errv, issues },
                        ),
                        None => None,
                    }),
                    (match mythril_issues_of(esv, i as int) {
                        Some(rest) => mythril_issues_of(esv, 0) == Some(acc.deep_view() + rest),
                        None => mythril_issues_of(esv, 0) is None,
                    }),
                decreases es@.len() - i,
            {
                proof {
                    assert(esv[i as int] == crate::json::json_view(es@[i as int]));
                }
                match mythril_issue_from_json(&es[i]) {
                    None => {
                        return None;
                    },
                    Some(it) => {
                        let ghost prevdv = acc.deep_view();
                        let ghost itdv = it.deep_view();
                        acc.push(it);
                        proof {
                            assert(acc.deep_view() =~= prevdv.push(itdv));
                            match mythril_issues_of(esv, i as int + 1) {
                                Some(rest) => {
                                    assert(prevdv + (seq![itdv] + rest) =~= acc.deep_view()
                                        + rest);
                                },
                                None => {},
                            }
                        }
                    },
                }
                i = i + 1;
            }
            proof {
                assert(mythril_issues_of(esv, i as int) == Some(Seq::<MythrilIssueV>::empty()));
                assert(acc.deep_view() + Seq::<MythrilIssueV>::empty() =~= acc.deep_view());
            }
            Some(MythrilOutput { success, error, issues: acc })
        },
        _ => None,
    }
}


/// Decoding of the elements of an array of strings, from `idx` on.
pub open spec fn strings_of(es: Seq<Jv>, idx: int) -> Option<Seq<Seq<char>>>
    decreases es.len() - idx,
{
    if idx < 0 {
        None
    } else if idx >= es.len() {
        Some(Seq::empty())
    } else {
        match es[idx] {
            Jv::Str(t) => match strings_of(es, idx + 1) {
                None => None,
                Some(rest) => Some(seq![t] + rest),
            },
            _ => None,
        }
    }
}

/// Decoding of a JSON value as an array of strings.
pub open spec fn jv_strings(v: Jv) -> Option<Seq<Seq<char>>> {
    match v {
        Jv::Arr(es) => strings_of(es, 0),
        _ => None,
    }
}

fn strings_from_json(j: &Json) -> (r: Option<Vec<String>>)
    ensures
        r matches Some(v) ==> jv_strings(j@) == Some(v.deep_view()),
        r is None ==> jv_strings(j@) is None,
{
    match j {
        Json::Arr(es) => {
            let ghost esv = crate::json::j_views(es@);
            proof {
                assert(j@ == Jv::Arr(esv));
            }
            let mut acc: Vec<String> = Vec::new();
            let mut i: usize = 0;
            proof {
                assert(acc.deep_view() =~= Seq::<Seq<char>>::empty());
                match strings_of(esv, 0) {
                    Some(rest) => {
                        assert(acc.deep_view() + rest =~= rest);
                    },
                    None => {},
                }
            }
            while i < es.len()
                invariant
                    i <= es@.len(),
                    esv == crate::json::j_views(es@),
                    jv_strings(j@) == strings_of(esv, 0),
                    (match strings_of(esv, i as int) {
                        Some(rest) => strings_of(esv, 0) == Some(acc.deep_view() + rest),
                        None => strings_of(esv, 0) is None,
                    }),
                decreases es@.len() - i,
            {
                proof {
                    assert(esv[i as int] == crate::json::json_view(es@[i as int]));
                }
                match &es[i] {
                    Json::Str(t) => {
                        let ghost prevdv = acc.deep_view();
                        let ghost tdv = t@;
                        acc.push(t.clone());
                        proof {
                            assert(acc.deep_view() =~= prevdv.push(tdv));
                            match strings_of(esv, i as int + 1) {
                                Some(rest) => {
                                    assert(prevdv + (seq![tdv] + rest) =~= acc.deep_view() + rest);
                                },
                                None => {},
                            }
                        }
                    },
                    _ => {
                        return None;
                    },
                }
                i = i + 1;
            }
            proof {
                assert(strings_of(esv, i as int) == Some(Seq::<Seq<char>>::empty()));
                assert(acc.deep_view() + Seq::<Seq<char>>::empty() =~= acc.deep_view());
            }
            Some(acc)
        },
        _ => None,
    }
}

/// The per-category findings the oyente tool reports for one contract.
pub struct OyenteVulnerabilities {
    pub integer_overflow: Vec<String>,
    pub integer_underflow: Vec<String>,
    pub callstack: Vec<String>,
    pub money_concurrency: Vec<String>,
    pub time_dependency: Vec<String>,
    pub reentrancy: Vec<String>,
    pub assertion_failure: Vec<String>,
    pub parity_multisig_bug_2: Vec<String>,
}

pub struct OyenteVulnerabilitiesV {
    pub integer_overflow: Seq<Seq<char>>,
    pub integer_underflow: Seq<Seq<char>>,
    pub callstack: Seq<Seq<char>>,
    pub money_concurrency: Seq<Seq<char>>,
    pub time_dependency: Seq<Seq<char>>,
    pub reentrancy: Seq<Seq<char>>,
    pub assertion_failure: Seq<Seq<char>>,
    pub parity_multisig_bug_2: Seq<Seq<char>>,
}

impl DeepView for OyenteVulnerabilities {
    type V = OyenteVulnerabilitiesV;

    open spec fn deep_view(&self) -> OyenteVulnerabilitiesV {
        OyenteVulnerabilitiesV {
            integer_overflow: self.integer_overflow.deep_view(),
            integer_underflow: self.integer_underflow.deep_view(),
            callstack: self.callstack.deep_view(),
            money_concurrency: self.money_concurrency.deep_view(),
            time_dependency: self.time_dependency.deep_view(),
            reentrancy: self.reentrancy.deep_view(),
            assertion_failure: self.assertion_failure.deep_view(),
            parity_multisig_bug_2: self.parity_multisig_bug_2.deep_view(),
        }
    }
}

/// One analyzed contract as the oyente tool reports it.
pub struct OyenteContract {
    pub evm_code_coverage: String,
    pub vulnerabilities: OyenteVulnerabilities,
}

pub struct OyenteContractV {
    pub evm_code_coverage: Seq<char>,
    pub vulnerabilities: OyenteVulnerabilitiesV,
}

impl DeepView for OyenteContract {
    type V = OyenteContractV;

    open spec fn deep_view(&self) -> OyenteContractV {
        OyenteContractV {
            evm_code_coverage: self.evm_code_coverage@,
            vulnerabilities: self.vulnerabilities.deep_view(),
        }
    }
}

/// The contracts of one analyzed source file, keyed by contract name.
pub struct OyenteFile {
    pub contracts: Vec<(String, OyenteContract)>,
}

pub struct OyenteFileV {
    pub contracts: Seq<(Seq<char>, OyenteContractV)>,
}

impl DeepView for OyenteFile {
    type V = OyenteFileV;

    open spec fn deep_view(&self) -> OyenteFileV {
        OyenteFileV { contracts: self.contracts.deep_view() }
    }
}

/// What the oyente tool prints: analyzed files keyed by name, each with its
/// contracts.
pub struct OyenteOutput {
    pub files: Vec<(String, OyenteFile)>,
}

pub struct OyenteOutputV {
    pub files: Seq<(Seq<char>, OyenteFileV)>,
}

impl DeepView for OyenteOutput {
    type V = OyenteOutputV;

    open spec fn deep_view(&self) -> OyenteOutputV {
        OyenteOutputV { files: self.files.deep_view() }
    }
}

/// Decoding of the `vulnerabilities` member.
pub open spec fn oyente_vulns_of(v: Jv) -> Option<OyenteVulnerabilitiesV> {
    match v {
        Jv::Obj(ps) => {
            match (
                obj_get(ps, "integer_overflow"@, 0),
                obj_get(ps, "integer_underflow"@, 0),
                obj_get(ps, "callstack"@, 0),
                obj_get(ps, "money_concurrency"@, 0),
                obj_get(ps, "time_dependency"@, 0),
                obj_get(ps, "reentrancy"@, 0),
                obj_get(ps, "assertion_failure"@, 0),
                obj_get(ps, "parity_multisig_bug_2"@, 0),
            ) {
                (Some(a), Some(b), Some(c), Some(d), Some(e), Some(f), Some(g), Some(h)) => {
                    match (
                        jv_strings(a),
                        jv_strings(b),
                        jv_strings(c),
                        jv_strings(d),
                        jv_strings(e),
                        jv_strings(f),
                        jv_strings(g),
                        jv_strings(h),
                    ) {
                        (
                            Some(integer_overflow),
                            Some(integer_underflow),
                            Some(callstack),
                            Some(money_concurrency),
                            Some(time_dependency),
                            Some(reentrancy),
                            Some(assertion_failure),
                            Some(parity_multisig_bug_2),
                        ) => Some(
                            OyenteVulnerabilitiesV {
                                integer_overflow,
                                integer_underflow,
                                callstack,
                                money_concurrency,
                                time_dependency,
                                reentrancy,
                                assertion_failure,
                                parity_multisig_bug_2,
                            },
                        ),
                        _ => None,
                    }
                },
                _ => None,
            }
        },
        _ => None,
    }
}

/// Decoding of one contract entry.
pub open spec fn oyente_contract_of(v: Jv) -> Option<OyenteContractV> {
    match v {
        Jv::Obj(ps) => {
            match (obj_get(ps, "evm_code_coverage"@, 0), obj_get(ps, "vulnerabilities"@, 0)) {
                (Some(Jv::Str(cov)), Some(vu)) => {
                    match oyente_vulns_of(vu) {
                        None => None,
                        Some(vulnerabilities) => Some(
                            OyenteContractV { evm_code_coverage: cov, vulnerabilities },
                        ),
                    }
                },
                _ => None,
            }
        },
        _ => None,
    }
}

/// Decoding of the members of one file object, from `idx` on.
pub open spec fn oyente_contracts_of(ps: Seq<(Seq<char>, Jv)>, idx: int) -> Option<
    Seq<(Seq<char>, OyenteContractV)>,
>
    decreases ps.len() - idx,
{
    if idx < 0 {
        None
    } else if idx >= ps.len() {
        Some(Seq::empty())
    } else {
        match oyente_contract_of(ps[idx].1) {
            None => None,
            Some(c) => match oyente_contracts_of(ps, idx + 1) {
                None => None,
                Some(rest) => Some(seq![(ps[idx].0, c)] + rest),
            },
        }
    }
}

/// Decoding of one file entry.
pub open spec fn oyente_file_of(v: Jv) -> Option<OyenteFileV> {
    match v {
        Jv::Obj(ps) => match oyente_contracts_of(ps, 0) {
            None => None,
            Some(contracts) => Some(OyenteFileV { contracts }),
        },
        _ => None,
    }
}

/// Decoding of the members of a whole oyente document, from `idx` on.
pub open spec fn oyente_files_of(ps: Seq<(Seq<char>, Jv)>, idx: int) -> Option<
    Seq<(Seq<char>, OyenteFileV)>,
>
    decreases ps.len() - idx,
{
    if idx < 0 {
        None
    } else if idx >= ps.len() {
        Some(Seq::empty())
    } else {
        match oyente_file_of(ps[idx].1) {
            None => None,
            Some(f) => match oyente_files_of(ps, idx + 1) {
                None => None,
                Some(rest) => Some(seq![(ps[idx].0, f)] + rest),
            },
        }
    }
}

/// Decoding of a whole oyente document.
pub open spec fn oyente_of_jv(v: Jv) -> Option<OyenteOutputV> {
    match v {
        Jv::Obj(ps) => match oyente_files_of(ps, 0) {
            None => None,
            Some(files) => Some(OyenteOutputV { files }),
        },
        _ => None,
    }
}

fn oyente_vulns_from_json(j: &Json) -> (r: Option<OyenteVulnerabilities>)
    ensures
        r matches Some(o) ==> oyente_vulns_of(j@) == Some(o.deep_view()),
        r is None ==> oyente_vulns_of(j@) is None,
{
    match j {
        Json::Obj(ps) => {
            let a = match obj_get_x(ps, &String::from_str("integer_overflow")) {
                Some(x) => x,
                None => {
                    return None;
                },
            };
            let b = match obj_get_x(ps, &String::from_str("integer_underflow")) {
                Some(x) => x,
                None => {
                    return None;
                },
            };
            let c = match obj_get_x(ps, &String::from_str("callstack")) {
                Some(x) => x,
                None => {
                    return None;
                },
            };
            let d = match obj_get_x(ps, &String::from_str("money_concurrency")) {
                Some(x) => x,
                None => {
                    return None;
                },
            };
            let e = match obj_get_x(ps, &String::from_str("time_dependency")) {
                Some(x) => x,
                None => {
                    return None;
                },
            };
            let f = match obj_get_x(ps, &String::from_str("reentrancy")) {
                Some(x) => x,
                None => {
                    return None;
                },
            };
            let g = match obj_get_x(ps, &String::from_str("assertion_failure")) {
                Some(x) => x,
                None => {
                    return None;
                },
            };
            let h = match obj_get_x(ps, &String::from_str("parity_multisig_bug_2")) {
                Some(x) => x,
                None => {
                    return None;
                },
            };
            let integer_overflow = match strings_from_json(a) {
                Some(v) => v,
                None => {
                    return None;
                },
            };
            let integer_underflow = match strings_from_json(b) {
                Some(v) => v,
                None => {
                    return None;
                },
            };
            let callstack = match strings_from_json(c) {
                Some(v) => v,
                None => {
                    return None;
                },
            };
            let money_concurrency = match strings_from_json(d) {
                Some(v) => v,
                None => {
                    return None;
                },
            };
            let time_dependency = match strings_from_json(e) {
                Some(v) => v,
                None => {
                    return None;
                },
            };
            let reentrancy = match strings_from_json(f) {
                Some(v) => v,
                None => {
                    return None;
                },
            };
            let assertion_failure = match strings_from_json(g) {
                Some(v) => v,
                None => {
                    return None;
                },
            };
            let parity_multisig_bug_2 = match strings_from_json(h) {
                Some(v) => v,
                None => {
                    return None;
                },
            };
            Some(
                OyenteVulnerabilities {
                    integer_overflow,
                    integer_underflow,
                    callstack,
                    money_concurrency,
                    time_dependency,
                    reentrancy,
                    assertion_failure,
                    parity_multisig_bug_2,
                },
            )
        },
        _ => None,
    }
}

fn oyente_contract_from_json(j: &Json) -> (r: Option<OyenteContract>)
    ensures
        r matches Some(c) ==> oyente_contract_of(j@) == Some(c.deep_view()),
        r is None ==> oyente_contract_of(j@) is None,
{
    match j {
        Json::Obj(ps) => {
            let cov = match obj_get_x(ps, &String::from_str("evm_code_coverage")) {
                Some(Json::Str(x)) => x.clone(),
                _ => {
                    return None;
                },
            };
            let vu = match obj_get_x(ps, &String::from_str("vulnerabilities")) {
                Some(x) => x,
                None => {
                    return None;
                },
            };
            match oyente_vulns_from_json(vu) {
                Some(vulnerabilities) => Some(
                    OyenteContract { evm_code_coverage: cov, vulnerabilities },
                ),
                None => None,
            }
        },
        _ => None,
    }
}

fn oyente_file_from_json(j: &Json) -> (r: Option<OyenteFile>)
    ensures
        r matches Some(f) ==> oyente_file_of(j@) == Some(f.deep_view()),
        r is None ==> oyente_file_of(j@) is None,
{
    match j {
        Json::Obj(ps) => {
            let ghost psv = m_views(ps@);
            proof {
                assert(j@ == Jv::Obj(psv));
            }
            let mut acc: Vec<(String, OyenteContract)> = Vec::new();
            let mut i: usize = 0;
            proof {
                assert(acc.deep_view() =~= Seq::<(Seq<char>, OyenteContractV)>::empty());
                match oyente_contracts_of(psv, 0) {
                    Some(rest) => {
                        assert(acc.deep_view() + rest =~= rest);
                    },
                    None => {},
                }
            }
            while i < ps.len()
                invariant
                    i <= ps@.len(),
                    psv == m_views(ps@),
                    oyente_file_of(j@) == (match oyente_contracts_of(psv, 0) {
                        Some(contracts) => Some(OyenteFileV { contracts }),
                        None => None,
                    }),
                    (match oyente_contracts_of(psv, i as int) {
                        Some(rest) => oyente_contracts_of(psv, 0) == Some(acc.deep_view() + rest),
                        None => oyente_contracts_of(psv, 0) is None,
                    }),
                decreases ps@.len() - i,
            {
                proof {
                    assert(psv[i as int] == (ps@[i as int].0@, crate::json::json_view(
                        ps@[i as int].1,
                    )));
                }
                let name = ps[i].0.clone();
                match oyente_contract_from_json(&ps[i].1) {
                    None => {
                        return None;
                    },
                    Some(c) => {
                        let ghost prevdv = acc.deep_view();
                        let ghost cdv = c.deep_view();
                        let ghost namev = name@;
                        acc.push((name, c));
                        proof {
                            assert(acc.deep_view() =~= prevdv.push((namev, cdv)));
                            match oyente_contracts_of(psv, i as int + 1) {
                                Some(rest) => {
                                    assert(prevdv + (seq![(psv[i as int].0, cdv)] + rest)
                                        =~= acc.deep_view() + rest);
                                },
                                None => {},
                            }
                        }
                    },
                }
                i = i + 1;
            }
            proof {
                assert(oyente_contracts_of(psv, i as int) == Some(
                    Seq::<(Seq<char>, OyenteContractV)>::empty(),
                ));
                assert(acc.deep_view() + Seq::<(Seq<char>, OyenteContractV)>::empty()
                    =~= acc.deep_view());
            }
            Some(OyenteFile { contracts: acc })
        },
        _ => None,
    }
}

/// Decodes a parsed JSON document into an oyente output, exactly when it
/// has the expected shape.
pub fn oyente_from_json(j: &Json) -> (r: Option<OyenteOutput>)
    ensures
        r matches Some(o) ==> oyente_of_jv(j@) == Some(o.deep_view()),
        r is None ==> oyente_of_jv(j@) is None,
{
    match j {
        Json::Obj(ps) => {
            let ghost psv = m_views(ps@);
            proof {
                assert(j@ == Jv::Obj(psv));
            }
            let mut acc: Vec<(String, OyenteFile)> = Vec::new();
            let mut i: usize = 0;
            proof {
                assert(acc.deep_view() =~= Seq::<(Seq<char>, OyenteFileV)>::empty());
                match oyente_files_of(psv, 0) {
                    Some(rest) => {
                        assert(acc.deep_view() + rest =~= rest);
                    },
                    None => {},
                }
            }
            while i < ps.len()
                invariant
                    i <= ps@.len(),
                    psv == m_views(ps@),
                    oyente_of_jv(j@) == (match oyente_files_of(psv, 0) {
                        Some(files) => Some(OyenteOutputV { files }),
                        None => None,
                    }),
                    (match oyente_files_of(psv, i as int) {
                        Some(rest) => oyente_files_of(psv, 0) == Some(acc.deep_view() + rest),
                        None => oyente_files_of(psv, 0) is None,
                    }),
                decreases ps@.len() - i,
            {
                proof {
                    assert(psv[i as int] == (ps@[i as int].0@, crate::json::json_view(
                        ps@[i as int].1,
                    )));
                }
                let name = ps[i].0.clone();
                match oyente_file_from_json(&ps[i].1) {
                    None => {
                        return None;
                    },
                    Some(f) => {
                        let ghost prevdv = acc.deep_view();
                        let ghost fdv = f.deep_view();
                        let ghost namev = name@;
                        acc.push((name, f));
                        proof {
                            assert(acc.deep_view() =~= prevdv.push((namev, fdv)));
                            match oyente_files_of(psv, i as int + 1) {
                                Some(rest) => {
                                    assert(prevdv + (seq![(psv[i as int].0, fdv)] + rest)
                                        =~= acc.deep_view() + rest);
                                },
                                None => {},
                            }
                        }
                    },
                }
                i = i + 1;
            }
            proof {
                assert(oyente_files_of(psv, i as int) == Some(
                    Seq::<(Seq<char>, OyenteFileV)>::empty(),
                ));
                assert(acc.deep_view() + Seq::<(Seq<char>, OyenteFileV)>::empty()
                    =~= acc.deep_view());
            }
            Some(OyenteOutput { files: acc })
        },
        _ => None,
    }
}

} // verus!
