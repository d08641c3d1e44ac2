//! Analysis depths, the command lines of the sandbox runtime and of each
//! tool, and the per-tool classification of captured subprocess output into
//! a response.

use vstd::prelude::*;
use vstd::utf8::valid_utf8;
use vstd::utf8::decode_utf8;
use crate::json::parse_json;
use crate::json::parse_json_spec;
use crate::json::u64_to_string;
use crate::json::dec_chars;
use crate::solium::SoliumIssue;
use crate::solium::issue_views;
use crate::solium::solium_issues_of;
use crate::solium::parse_solium_response;
use crate::strutil::bytes_to_string;
use crate::strutil::concat_bytes;
use crate::tool_output::SolcOutput;
use crate::tool_output::SolcOutputV;
use crate::tool_output::solc_of_jv;
use crate::tool_output::solc_from_json;
use crate::tool_output::MythrilOutput;
use crate::tool_output::MythrilOutputV;
use crate::tool_output::mythril_of_jv;
use crate::tool_output::mythril_from_json;
use crate::tool_output::OyenteOutput;
use crate::tool_output::OyenteOutputV;
use crate::tool_output::oyente_of_jv;
use crate::tool_output::oyente_from_json;

verus! {

/// What a sandboxed tool run left behind: whether it exited with status
/// zero, and the captured output streams.
pub struct RawOutput {
    pub success: bool,
    pub stdout: Vec<u8>,
    pub stderr: Vec<u8>,
}

/// Outcome of the solc adapter.
pub enum SolcResponse {
    Success(SolcOutput),
    Failure(String),
}

/// Outcome of the mythril adapter.
pub enum MythrilResponse {
    Success(MythrilOutput),
    Failure(String),
}

/// Outcome of the oyente adapter.  The boolean is the issues flag: the tool
/// signals findings through a non-zero exit status.
pub enum OyenteResponse {
    Success(OyenteOutput, bool),
    Failure(String),
}

/// Outcome of the solium adapter.  An empty issue list means a clean
/// contract.
pub enum SoliumResponse {
    Success(Vec<SoliumIssue>),
    Failure(String),
}

/// How thorough an analysis run should be.  Each adapter maps a depth to a
/// tool-specific integer; deeper is slower but more exhaustive.
#[derive(Debug, Copy, Clone, PartialEq, Eq, Structural)]
pub enum AnalysisDepth {
    Shallow,
    Deep,
    Deeper,
    Deepest,
}

/// Position of a depth in the thoroughness order: Shallow < Deep < Deeper
/// < Deepest.
pub open spec fn depth_rank(d: AnalysisDepth) -> int {
    match d {
        AnalysisDepth::Shallow => 0,
        AnalysisDepth::Deep => 1,
        AnalysisDepth::Deeper => 2,
        AnalysisDepth::Deepest => 3,
    }
}

/// The `--max-depth` integer handed to the mythril tool.
pub open spec fn mythril_depth_spec(d: AnalysisDepth) -> int {
    match d {
        AnalysisDepth::Shallow => 4,
        AnalysisDepth::Deep => 8,
        AnalysisDepth::Deeper => 22,
        AnalysisDepth::Deepest => 80,
    }
}

/// The `-dl` depth-limit integer handed to the oyente tool.
pub open spec fn oyente_depth_spec(d: AnalysisDepth) -> int {
    match d {
        AnalysisDepth::Shallow => 20,
        AnalysisDepth::Deep => 50,
        AnalysisDepth::Deeper => 80,
        AnalysisDepth::Deepest => 250,
    }
}

pub fn mythril_depth(d: AnalysisDepth) -> (r: u64)
    ensures
        r == mythril_depth_spec(d),
{
    match d {
        AnalysisDepth::Shallow => 4,
        AnalysisDepth::Deep => 8,
        AnalysisDepth::Deeper => 22,
        AnalysisDepth::Deepest => 80,
    }
}

pub fn oyente_depth(d: AnalysisDepth) -> (r: u64)
    ensures
        r == oyente_depth_spec(d),
{
    match d {
        AnalysisDepth::Shallow => 20,
        AnalysisDepth::Deep => 50,
        AnalysisDepth::Deeper => 80,
        AnalysisDepth::Deepest => 250,
    }
}

/// Both per-tool depth mappings are strictly monotone in the thoroughness
/// order: a strictly deeper analysis always gets a strictly larger integer.
pub proof fn lemma_depth_mappings_monotone(d1: AnalysisDepth, d2: AnalysisDepth)
    requires
        depth_rank(d1) < depth_rank(d2),
    ensures
        mythril_depth_spec(d1) < mythril_depth_spec(d2),
        oyente_depth_spec(d1) < oyente_depth_spec(d2),
{
}

/// The fixed arguments of every sandboxed run: a discarded container, a
/// 1.5 GiB memory cap, the working directory mounted read-only at `/src`,
/// and the tool's well-known image.
pub fn sandbox_args(cwd: &str, tool: &str) -> (r: Vec<String>)
    ensures
        r@.len() == 7,
        r@[0]@ == "run"@,
        r@[1]@ == "--rm"@,
        r@[2]@ == "-m"@,
        r@[3]@ == "1.5g"@,
        r@[4]@ == "-v"@,
        r@[5]@ == cwd@ + ":/src:ro"@,
        r@[6]@ == "enhancedsociety/"@ + tool@,
    {
    let mut r: Vec<String> = Vec::new();
    r.push(String::from_str("run"));
    r.push(String::from_str("--rm"));
    r.push(String::from_str("-m"));
    r.push(String::from_str("1.5g"));
    r.push(String::from_str("-v"));
    r.push(String::from_str(cwd).concat(":/src:ro"));
    r.push(String::from_str("enhancedsociety/").concat(tool));
    r
}

/// Arguments of the solc tool: combined ABI and bytecode output as JSON.
pub fn solc_args(contract_path: &str) -> (r: Vec<String>)
    ensures
        r@.len() == 6,
        r@[0]@ == "--pretty-json"@,
        r@[1]@ == "--combined-json"@,
        r@[2]@ == "abi,bin"@,
        r@[3]@ == "--allow-paths"@,
        r@[4]@ == "."@,
        r@[5]@ == contract_path@,
{
    let mut r: Vec<String> = Vec::new();
    r.push(String::from_str("--pretty-json"));
    r.push(String::from_str("--combined-json"));
    r.push(String::from_str("abi,bin"));
    r.push(String::from_str("--allow-paths"));
    r.push(String::from_str("."));
    r.push(String::from_str(contract_path));
    r
}

/// Arguments of the mythril tool: JSON output at the mapped depth.
pub fn mythril_args(contract_path: &str, d: AnalysisDepth) -> (r: Vec<String>)
    ensures
        r@.len() == 5,
        r@[0]@ == "-xo"@,
        r@[1]@ == "json"@,
        r@[2]@ == "--max-depth"@,
        r@[3]@ == dec_chars(mythril_depth_spec(d) as nat),
        r@[4]@ == contract_path@,
{
    let mut r: Vec<String> = Vec::new();
    r.push(String::from_str("-xo"));
    r.push(String::from_str("json"));
    r.push(String::from_str("--max-depth"));
    r.push(u64_to_string(mythril_depth(d)));
    r.push(String::from_str(contract_path));
    r
}

/// Arguments of the oyente tool at the mapped depth limit.
pub fn oyente_args(contract_path: &str, d: AnalysisDepth) -> (r: Vec<String>)
    ensures
        r@.len() == 9,
        r@[0]@ == "-w"@,
        r@[1]@ == "-ce"@,
        r@[2]@ == "-a"@,
        r@[3]@ == "-dl"@,
        r@[4]@ == dec_chars(oyente_depth_spec(d) as nat),
        r@[5]@ == "-ap"@,
        r@[6]@ == "."@,
        r@[7]@ == "-s"@,
        r@[8]@ == contract_path@,
{
    let mut r: Vec<String> = Vec::new();
    r.push(String::from_str("-w"));
    r.push(String::from_str("-ce"));
    r.push(String::from_str("-a"));
    r.push(String::from_str("-dl"));
    r.push(u64_to_string(oyente_depth(d)));
    r.push(String::from_str("-ap"));
    r.push(String::from_str("."));
    r.push(String::from_str("-s"));
    r.push(String::from_str(contract_path));
    r
}

/// Arguments of the solium linter: GCC-style reporting.
pub fn solium_args(contract_path: &str) -> (r: Vec<String>)
    ensures
        r@.len() == 4,
        r@[0]@ == "-R"@,
        r@[1]@ == "gcc"@,
        r@[2]@ == "-f"@,
        r@[3]@ == contract_path@,
{
    let mut r: Vec<String> = Vec::new();
    r.push(String::from_str("-R"));
    r.push(String::from_str("gcc"));
    r.push(String::from_str("-f"));
    r.push(String::from_str(contract_path));
    r
}

/// The solc document spelled by captured standard output, if it decodes.
pub open spec fn solc_decoded(stdout: Seq<u8>) -> Option<SolcOutputV> {
    if valid_utf8(stdout) {
        match parse_json_spec(decode_utf8(stdout)) {
            Some(v) => solc_of_jv(v),
            None => None,
        }
    } else {
        None
    }
}

/// Classifies a captured solc run.  On a zero exit the output must decode,
/// else the run counts as absent; on a non-zero exit standard error is the
/// failure message.
pub fn run_solc(out: Option<RawOutput>) -> (r: Option<SolcResponse>)
    ensures
        out is None ==> r is None,
        out matches Some(o) ==> (if o.success {
            match solc_decoded(o.stdout@) {
                Some(ov) => r matches Some(SolcResponse::Success(so)) && so.deep_view() == ov,
                None => r is None,
            }
        } else {
            if valid_utf8(o.stderr@) {
                r matches Some(SolcResponse::Failure(m)) && m@ == decode_utf8(o.stderr@)
            } else {
                r is None
            }
        }),
{
    match out {
        None => None,
        Some(o) => {
            if o.success {
                match bytes_to_string(&o.stdout) {
                    None => None,
                    Some(s) => match parse_json(s.as_str()) {
                        None => None,
                        Some(j) => match solc_from_json(&j) {
                            Some(so) => Some(SolcResponse::Success(so)),
                            None => None,
                        },
                    },
                }
            } else {
                match bytes_to_string(&o.stderr) {
                    Some(s) => Some(SolcResponse::Failure(s)),
                    None => None,
                }
            }
        },
    }
}

/// The mythril document spelled by captured standard output, if it
/// decodes.
pub open spec fn mythril_decoded(stdout: Seq<u8>) -> Option<MythrilOutputV> {
    if valid_utf8(stdout) {
        match parse_json_spec(decode_utf8(stdout)) {
            Some(v) => mythril_of_jv(v),
            None => None,
        }
    } else {
        None
    }
}

/// Classifies a captured mythril run.  On a zero exit a document that does
/// not decode is a deserialization failure; on a non-zero exit standard
/// error (or a fixed text when it is not UTF-8) is the failure message.
pub fn run_mythril(out: Option<RawOutput>) -> (r: Option<MythrilResponse>)
    ensures
        out is None ==> r is None,
        out matches Some(o) ==> (if o.success {
            if valid_utf8(o.stdout@) {
                match mythril_decoded(o.stdout@) {
                    Some(ov) => r matches Some(MythrilResponse::Success(mo)) && mo.deep_view()
                        == ov,
                    None => r matches Some(MythrilResponse::Failure(m)) && m@
                        == "Error deserializing: not a mythril report"@,
                }
            } else {
                r matches Some(MythrilResponse::Failure(m)) && m@
                    == "Unknown error deserializing"@
            }
        } else {
            if valid_utf8(o.stderr@) {
                r matches Some(MythrilResponse::Failure(m)) && m@ == decode_utf8(o.stderr@)
            } else {
                r matches Some(MythrilResponse::Failure(m)) && m@ == "Unknown error"@
            }
        }),
{
    match out {
        None => None,
        Some(o) => {
            if o.success {
                match bytes_to_string(&o.stdout) {
                    None => Some(
                        MythrilResponse::Failure(String::from_str("Unknown error deserializing")),
                    ),
                    Some(s) => match parse_json(s.as_str()) {
                        None => Some(
                            MythrilResponse::Failure(
                                String::from_str("Error deserializing: not a mythril report"),
                            ),
                        ),
                        Some(j) => match mythril_from_json(&j) {
                            Some(mo) => Some(MythrilResponse::Success(mo)),
                            None => Some(
                                MythrilResponse::Failure(
                                    String::from_str("Error deserializing: not a mythril report"),
                                ),
                            ),
                        },
                    },
                }
            } else {
                match bytes_to_string(&o.stderr) {
                    Some(s) => Some(MythrilResponse::Failure(s)),
                    None => Some(MythrilResponse::Failure(String::from_str("Unknown error"))),
                }
            }
        },
    }
}

/// The oyente document spelled by captured standard output, if it decodes.
pub open spec fn oyente_decoded(stdout: Seq<u8>) -> Option<OyenteOutputV> {
    if valid_utf8(stdout) {
        match parse_json_spec(decode_utf8(stdout)) {
            Some(v) => oyente_of_jv(v),
            None => None,
        }
    } else {
        None
    }
}

/// Classifies a captured oyente run.  The exit status never makes a
/// failure by itself: a document that decodes is a success whose issues
/// flag is set exactly when the exit status was non-zero.
pub fn run_oyente(out: Option<RawOutput>) -> (r: Option<OyenteResponse>)
    ensures
        out is None ==> r is None,
        out matches Some(o) ==> (if valid_utf8(o.stdout@) {
            match oyente_decoded(o.stdout@) {
                Some(ov) => r matches Some(OyenteResponse::Success(oo, flag)) && oo.deep_view()
                    == ov && flag == !o.success,
                None => r matches Some(OyenteResponse::Failure(m)) && m@
                    == "Error deserializing: not an oyente report"@,
            }
        } else {
            if valid_utf8(o.stderr@) {
                r matches Some(OyenteResponse::Failure(m)) && m@ == decode_utf8(o.stderr@)
            } else {
                r matches Some(OyenteResponse::Failure(m)) && m@ == "Unknown error"@
            }
        }),
{
    match out {
        None => None,
        Some(o) => {
            match bytes_to_string(&o.stdout) {
                Some(s) => match parse_json(s.as_str()) {
                    None => Some(
                        OyenteResponse::Failure(
                            String::from_str("Error deserializing: not an oyente report"),
                        ),
                    ),
                    Some(j) => match oyente_from_json(&j) {
                        Some(oo) => Some(OyenteResponse::Success(oo, !o.success)),
                        None => Some(
                            OyenteResponse::Failure(
                                String::from_str("Error deserializing: not an oyente report"),
                            ),
                        ),
                    },
                },
                None => match bytes_to_string(&o.stderr) {
                    Some(s) => Some(OyenteResponse::Failure(s)),
                    None => Some(OyenteResponse::Failure(String::from_str("Unknown error"))),
                },
            }
        },
    }
}

/// Classifies a captured solium run.  On a zero exit the parsed issue list
/// is the result, empty meaning clean; on a non-zero exit a non-empty
/// issue list still counts as a success, and otherwise both streams
/// together are the failure message.
pub fn run_solium(out: Option<RawOutput>) -> (r: Option<SoliumResponse>)
    ensures
        out is None ==> r is None,
        out matches Some(o) ==> (if o.success {
            if valid_utf8(o.stdout@) {
                r matches Some(SoliumResponse::Success(l)) && issue_views(l@)
                    == solium_issues_of(decode_utf8(o.stdout@), 0)
            } else {
                r matches Some(SoliumResponse::Failure(m)) && m@
                    == "Unknown error deserializing"@
            }
        } else {
            if !valid_utf8(o.stdout@) {
                r is None
            } else {
                if solium_issues_of(decode_utf8(o.stdout@), 0).len() > 0 {
                    r matches Some(SoliumResponse::Success(l)) && issue_views(l@)
                        == solium_issues_of(decode_utf8(o.stdout@), 0)
                } else {
                    if valid_utf8(o.stdout@ + o.stderr@) {
                        r matches Some(SoliumResponse::Failure(m)) && m@ == decode_utf8(
                            o.stdout@ + o.stderr@,
                        )
                    } else {
                        r matches Some(SoliumResponse::Failure(m)) && m@ == "Unknown error"@
                    }
                }
            }
        }),
{
    match out {
        None => None,
        Some(o) => {
            if o.success {
                match bytes_to_string(&o.stdout) {
                    Some(s) => Some(SoliumResponse::Success(parse_solium_response(s.as_str()))),
                    None => Some(
                        SoliumResponse::Failure(String::from_str("Unknown error deserializing")),
                    ),
                }
            } else {
                match bytes_to_string(&o.stdout) {
                    None => None,
                    Some(s) => {
                        let resp = parse_solium_response(s.as_str());
                        if resp.len() > 0 {
                            proof {
                                assert(issue_views(resp@).len() == resp@.len());
                            }
                            Some(SoliumResponse::Success(resp))
                        } else {
                            proof {
                                assert(issue_views(resp@).len() == resp@.len());
                            }
                            let both = concat_bytes(&o.stdout, &o.stderr);
                            match bytes_to_string(&both) {
                                Some(m) => Some(SoliumResponse::Failure(m)),
                                None => Some(
                                    SoliumResponse::Failure(String::from_str("Unknown error")),
                                ),
                            }
                        }
                    },
                }
            }
        },
    }
}

} // verus!
