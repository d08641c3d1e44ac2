use solsa::tools::{
    mythril_args, mythril_depth, oyente_args, oyente_depth, sandbox_args, solc_args, solium_args,
    AnalysisDepth,
};
use solsa::report::{parse_depth, preload_images};

#[test]
fn mythril_depth_values() {
    assert_eq!(mythril_depth(AnalysisDepth::Shallow), 4);
    assert_eq!(mythril_depth(AnalysisDepth::Deep), 8);
    assert_eq!(mythril_depth(AnalysisDepth::Deeper), 22);
    assert_eq!(mythril_depth(AnalysisDepth::Deepest), 80);
}

#[test]
fn oyente_depth_values() {
    assert_eq!(oyente_depth(AnalysisDepth::Shallow), 20);
    assert_eq!(oyente_depth(AnalysisDepth::Deep), 50);
    assert_eq!(oyente_depth(AnalysisDepth::Deeper), 80);
    assert_eq!(oyente_depth(AnalysisDepth::Deepest), 250);
}

#[test]
fn depth_mappings_strictly_monotone() {
    let depths = [
        AnalysisDepth::Shallow,
        AnalysisDepth::Deep,
        AnalysisDepth::Deeper,
        AnalysisDepth::Deepest,
    ];
    for i in 0..depths.len() {
        for j in (i + 1)..depths.len() {
            assert!(mythril_depth(depths[i]) < mythril_depth(depths[j]));
            assert!(oyente_depth(depths[i]) < oyente_depth(depths[j]));
        }
    }
}

#[test]
fn parse_depth_names() {
    assert_eq!(parse_depth("deepest"), AnalysisDepth::Deepest);
    assert_eq!(parse_depth("deeper"), AnalysisDepth::Deeper);
    assert_eq!(parse_depth("deep"), AnalysisDepth::Deep);
    assert_eq!(parse_depth("shallow"), AnalysisDepth::Shallow);
    assert_eq!(parse_depth("anything-else"), AnalysisDepth::Shallow);
    assert_eq!(parse_depth(""), AnalysisDepth::Shallow);
}

#[test]
fn sandbox_command_line() {
    let args = sandbox_args("/work/dir", "solc");
    let expect = vec![
        "run",
        "--rm",
        "-m",
        "1.5g",
        "-v",
        "/work/dir:/src:ro",
        "enhancedsociety/solc",
    ];
    assert_eq!(args.len(), expect.len());
    for (a, e) in args.iter().zip(expect.iter()) {
        assert_eq!(a, e);
    }
}

#[test]
fn solc_command_line() {
    let args = solc_args("Empty.sol");
    let expect = vec![
        "--pretty-json",
        "--combined-json",
        "abi,bin",
        "--allow-paths",
        ".",
        "Empty.sol",
    ];
    assert_eq!(args.len(), expect.len());
    for (a, e) in args.iter().zip(expect.iter()) {
        assert_eq!(a, e);
    }
}

#[test]
fn mythril_command_line() {
    let args = mythril_args("C.sol", AnalysisDepth::Deeper);
    let expect = vec!["-xo", "json", "--max-depth", "22", "C.sol"];
    assert_eq!(args.len(), expect.len());
    for (a, e) in args.iter().zip(expect.iter()) {
        assert_eq!(a, e);
    }
}

#[test]
fn oyente_command_line() {
    let args = oyente_args("C.sol", AnalysisDepth::Deepest);
    let expect = vec!["-w", "-ce", "-a", "-dl", "250", "-ap", ".", "-s", "C.sol"];
    assert_eq!(args.len(), expect.len());
    for (a, e) in args.iter().zip(expect.iter()) {
        assert_eq!(a, e);
    }
}

#[test]
fn solium_command_line() {
    let args = solium_args("C.sol");
    let expect = vec!["-R", "gcc", "-f", "C.sol"];
    assert_eq!(args.len(), expect.len());
    for (a, e) in args.iter().zip(expect.iter()) {
        assert_eq!(a, e);
    }
}

#[test]
fn preload_image_names() {
    let imgs = preload_images();
    assert_eq!(imgs.len(), 4);
    assert_eq!(imgs[0], "solc");
    assert_eq!(imgs[1], "solium");
    assert_eq!(imgs[2], "oyente");
    assert_eq!(imgs[3], "mythril");
}
