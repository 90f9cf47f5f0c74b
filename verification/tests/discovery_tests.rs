//! Diagnostic-line scanning, artifact resolution, and the executor's
//! pure conclusions, ending with the whole pipeline walked on one
//! declared binary.

use guest_build::builder::{GuestBuilder, Profile, ProcessInvocation};
use guest_build::entry::GuestListEntry;
use guest_build::errors::BuildError;
use guest_build::executor::{artifact_label, Executor};
use guest_build::model::{Metadata, Target, TargetKind};
use guest_build::resolve::{order_indices, resolve, resolve_artifacts};
use guest_build::scan::{extract_path, scan_line};
use guest_build::text::file_name;

fn dummy_invocation() -> ProcessInvocation {
    ProcessInvocation {
        program: "cargo".to_string(),
        args: Vec::new(),
        current_dir: String::new(),
        env_remove: Vec::new(),
        env_set: Vec::new(),
    }
}

#[test]
fn scan_line_extracts_announced_path() {
    let line = "   Executable unittests (target/debug/deps/guest-abcdef)";
    assert_eq!(
        scan_line(line).unwrap(),
        "target/debug/deps/guest-abcdef"
    );
    let quiet = "   Compiling guest v0.1.0 (path/to/guest)";
    assert_eq!(scan_line(quiet), None);
}

#[test]
fn scan_line_without_viable_parens_yields_none() {
    assert_eq!(scan_line("Executable unittests"), None);
    assert_eq!(scan_line("Executable unittests ()"), None);
    assert_eq!(scan_line("Executable unittests (unclosed"), None);
}

#[test]
fn extract_path_takes_first_viable_pair() {
    assert_eq!(extract_path("foo (bar) (baz)").unwrap(), "bar");
    assert_eq!(extract_path("() then (real)").unwrap(), "real");
    assert_eq!(extract_path("nothing here"), None);
}

#[test]
fn resolution_pairs_each_declared_name() {
    let names = vec!["alpha".to_string(), "beta".to_string()];
    let cands = vec![
        "target/deps/hash1-alpha".to_string(),
        "target/deps/hash2-beta".to_string(),
    ];
    let idx = resolve(&names, &cands).unwrap();
    assert_eq!(idx, vec![0, 1]);

    let missing = resolve(&vec!["gamma".to_string()], &Vec::new());
    match missing {
        Err(BuildError::ArtifactNotFound(n)) => assert_eq!(n, "gamma"),
        _ => panic!("expected the missing declared name"),
    }
}

#[test]
fn resolution_yields_named_pairs() {
    let names = vec!["alpha".to_string(), "beta".to_string()];
    let cands = vec![
        "target/deps/hash1-alpha".to_string(),
        "target/deps/hash2-beta".to_string(),
    ];
    let pairs = resolve_artifacts(&names, &cands).unwrap();
    assert_eq!(pairs.len(), 2);
    assert_eq!(pairs[0].declared_name, "alpha");
    assert_eq!(pairs[0].discovered_path, "target/deps/hash1-alpha");
    assert_eq!(pairs[1].declared_name, "beta");
    assert_eq!(pairs[1].discovered_path, "target/deps/hash2-beta");
}

#[test]
fn resolution_prefers_longest_name_first() {
    // "foo" is a substring of "foo2"; the longer name is matched first
    // so it cannot be robbed of its only candidate.
    let names = vec!["foo".to_string(), "foo2".to_string()];
    let cands = vec!["d/hash-foo2".to_string(), "d/hash-foo".to_string()];
    let idx = resolve(&names, &cands).unwrap();
    assert_eq!(idx, vec![1, 0]);
    let order = order_indices(&names);
    assert_eq!(order, vec![1, 0]);
}

#[test]
fn resolution_prefers_exact_file_name() {
    let names = vec!["guest".to_string()];
    let cands = vec!["d/guest-12".to_string(), "d/guest".to_string()];
    let idx = resolve(&names, &cands).unwrap();
    assert_eq!(idx, vec![1]);
}

#[test]
fn conclude_propagates_child_failure() {
    let ex = Executor { cmd: dummy_invocation(), artifacts: Vec::new(), test: false };
    let r = ex.conclude(false, Some(101), &Vec::new());
    assert!(matches!(r, Err(BuildError::ChildExecutionFailure(101))));
    let r = ex.conclude(false, None, &Vec::new());
    assert!(matches!(r, Err(BuildError::ChildExecutionFailure(1))));
}

#[test]
fn conclude_keeps_deterministic_paths_for_plain_builds() {
    let ex = Executor {
        cmd: dummy_invocation(),
        artifacts: vec!["/ws/target/t/debug/guest".to_string()],
        test: false,
    };
    let r = ex.conclude(true, Some(0), &Vec::new()).unwrap();
    assert_eq!(r, vec!["/ws/target/t/debug/guest"]);
}

#[test]
fn conclude_fails_loudly_without_discoveries() {
    let ex = Executor {
        cmd: dummy_invocation(),
        artifacts: vec!["/ws/target/t/debug/deps/guest".to_string()],
        test: true,
    };
    let r = ex.conclude(true, Some(0), &Vec::new());
    assert!(matches!(r, Err(BuildError::NoArtifactsDiscovered)));
}

#[test]
fn conclude_resolves_test_binaries() {
    let ex = Executor {
        cmd: dummy_invocation(),
        artifacts: vec!["/ws/target/t/debug/deps/guest".to_string()],
        test: true,
    };
    let cands = vec!["target/t/debug/deps/guest-abcdef".to_string()];
    let r = ex.conclude(true, Some(0), &cands).unwrap();
    assert_eq!(r, vec!["target/t/debug/deps/guest-abcdef"]);

    let unrelated = vec!["target/t/debug/deps/other-123".to_string()];
    match ex.conclude(true, Some(0), &unrelated) {
        Err(BuildError::ArtifactNotFound(n)) => assert_eq!(n, "guest"),
        _ => panic!("expected the unmatched declared name"),
    }
}

#[test]
fn placement_labels_test_binaries() {
    assert_eq!(artifact_label(false, "guest"), "guest");
    assert_eq!(artifact_label(true, "guest"), "test-guest");
    let ex = Executor {
        cmd: dummy_invocation(),
        artifacts: Vec::new(),
        test: true,
    };
    let plan = ex.sp1_placement(&vec!["target/t/debug/deps/guest-ab".to_string()], "/ws");
    assert_eq!(
        plan,
        vec![(
            "/ws/target/t/debug/deps/guest-ab".to_string(),
            "/ws/elf/test-guest-ab".to_string()
        )]
    );
}

#[test]
fn whole_pipeline_on_one_declared_binary() {
    let meta = Metadata {
        targets: vec![Target { name: "guest".to_string(), kind: TargetKind::Binary }],
        target_directory: "/ws/target".to_string(),
    };
    let builder = GuestBuilder::new(
        &meta,
        "riscv32im-succinct-zkvm-elf",
        Some("/tools/cargo".to_string()),
        Some("/tools/rustc".to_string()),
    )
    .unwrap();
    let ambient: Vec<String> = Vec::new();
    let ex = builder.build_command(Profile::Debug, None, &ambient);
    assert_eq!(
        ex.artifacts,
        vec!["/ws/target/riscv32im-succinct-zkvm-elf/debug/guest"]
    );

    // the child exits 0 and announces the produced test binary
    let line = "Executable unittests (target/riscv32im-succinct-zkvm-elf/debug/deps/guest-abcdef)";
    let mut candidates: Vec<String> = Vec::new();
    if let Some(p) = scan_line(line) {
        candidates.push(p);
    }
    assert_eq!(
        candidates,
        vec!["target/riscv32im-succinct-zkvm-elf/debug/deps/guest-abcdef"]
    );

    // a test-mode run resolves the declared name to the discovered path
    let tex = Executor {
        cmd: dummy_invocation(),
        artifacts: vec!["/ws/target/riscv32im-succinct-zkvm-elf/debug/deps/guest".to_string()],
        test: true,
    };
    let resolved = tex.conclude(true, Some(0), &candidates).unwrap();
    assert_eq!(resolved, candidates);

    // the entry carries the declared name and the discovered path
    let entry = GuestListEntry::build(
        "guest",
        vec![0u8, 1, 2],
        [0u32; 8],
        resolved[0].as_str(),
    );
    assert_eq!(entry.name, "guest");
    assert_eq!(entry.path, resolved[0]);

    // in copy mode the binary lands in the output directory under its
    // own name
    let plain = Executor {
        cmd: dummy_invocation(),
        artifacts: Vec::new(),
        test: false,
    };
    let plan = plain.sp1_placement(&ex.artifacts, "/ws");
    assert_eq!(plan.len(), 1);
    assert_eq!(plan[0].1, "/ws/elf/guest");
    assert_eq!(file_name(plan[0].1.as_str()), "guest");
}
