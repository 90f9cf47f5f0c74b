//! The command assembler: argument lists, environment deltas, ambient
//! isolation, and the flag encoding's round trip.

use guest_build::builder::{
    child_env, decode_flags, encode_flags, format_flags, sanitized_cmd, to_strings,
    GuestBuilder, Profile,
};
use guest_build::errors::BuildError;
use guest_build::model::{Metadata, Target, TargetKind};
use guest_build::risc0::{cargo_command, is_debug, risc0_data};

fn sample_meta() -> Metadata {
    Metadata {
        targets: vec![
            Target { name: "guest".to_string(), kind: TargetKind::Binary },
            Target { name: "other".to_string(), kind: TargetKind::Binary },
            Target { name: "guest".to_string(), kind: TargetKind::Test },
            Target { name: "helpers".to_string(), kind: TargetKind::Library },
        ],
        target_directory: "/ws/target".to_string(),
    }
}

fn sample_builder() -> GuestBuilder {
    GuestBuilder::new(
        &sample_meta(),
        "riscv32im-succinct-zkvm-elf",
        Some("/tools/cargo\n".to_string()),
        Some("  /tools/rustc\n".to_string()),
    )
    .unwrap()
}

#[test]
fn new_resolves_tools_or_fails() {
    let b = sample_builder();
    assert_eq!(b.cargo, "/tools/cargo");
    assert_eq!(b.rustc_compiler, "/tools/rustc");
    assert_eq!(b.target, "riscv32im-succinct-zkvm-elf");

    let missing = GuestBuilder::new(&sample_meta(), "t", None, Some("/r".to_string()));
    assert!(matches!(missing, Err(BuildError::ToolchainResolution)));
    let blank = GuestBuilder::new(
        &sample_meta(),
        "t",
        Some("   \n".to_string()),
        Some("/r".to_string()),
    );
    assert!(matches!(blank, Err(BuildError::ToolchainResolution)));
}

#[test]
fn format_flags_interleaves() {
    let items = to_strings(&["passes=loweratomic", "panic=abort"]);
    let r = format_flags("-C", &items);
    assert_eq!(r, vec!["-C", "passes=loweratomic", "-C", "panic=abort"]);
}

#[test]
fn flag_encoding_round_trips() {
    let flags = to_strings(&[
        "link-arg=-Ttext=0x00200800",
        "panic=abort",
        "a b c",
        "odd;chars|&()",
    ]);
    let encoded = encode_flags(&flags);
    assert_eq!(
        encoded,
        "link-arg=-Ttext=0x00200800\u{1f}panic=abort\u{1f}a b c\u{1f}odd;chars|&()"
    );
    let decoded = decode_flags(&encoded);
    assert_eq!(decoded, flags);
}

#[test]
fn flag_encoding_empty_list() {
    let flags: Vec<String> = Vec::new();
    let encoded = encode_flags(&flags);
    assert_eq!(encoded, "");
    assert_eq!(decode_flags(""), Vec::<String>::new());
}

#[test]
fn build_command_assembles_args_and_env() {
    let ambient = vec![
        "CARGO_HOME".to_string(),
        "PATH".to_string(),
        "CARGO_TARGET_DIR".to_string(),
    ];
    let b = sample_builder()
        .rust_flags(&["passes=loweratomic", "link-arg=-Ttext=0x00200800", "panic=abort"])
        .custom_args(&["--ignore-rust-version"]);
    let ex = b.build_command(Profile::Release, None, &ambient);
    assert_eq!(ex.cmd.program, "/tools/cargo");
    assert_eq!(
        ex.cmd.args,
        vec![
            "build",
            "--target",
            "riscv32im-succinct-zkvm-elf",
            "--locked",
            "--release",
            "--ignore-rust-version",
        ]
    );
    assert_eq!(ex.cmd.current_dir, "/ws");
    assert_eq!(
        ex.cmd.env_remove,
        vec!["CARGO_HOME", "CARGO_TARGET_DIR", "RUSTUP_TOOLCHAIN"]
    );
    assert_eq!(
        ex.cmd.env_set,
        vec![
            ("RUSTC".to_string(), "/tools/rustc".to_string()),
            (
                "CARGO_ENCODED_RUSTFLAGS".to_string(),
                "-C\u{1f}passes=loweratomic\u{1f}-C\u{1f}link-arg=-Ttext=0x00200800\u{1f}-C\u{1f}panic=abort"
                    .to_string()
            ),
        ]
    );
    assert!(!ex.test);
    assert_eq!(
        ex.artifacts,
        vec![
            "/ws/target/riscv32im-succinct-zkvm-elf/release/guest",
            "/ws/target/riscv32im-succinct-zkvm-elf/release/other",
        ]
    );
}

#[test]
fn test_command_targets_deps_and_filters() {
    let ambient: Vec<String> = Vec::new();
    let b = sample_builder();
    let filter = vec!["guest".to_string()];
    let ex = b.test_command(Profile::Debug, Some(&filter), &ambient);
    assert!(ex.test);
    assert_eq!(
        ex.cmd.args,
        vec![
            "test",
            "--no-run",
            "--target",
            "riscv32im-succinct-zkvm-elf",
            "--locked",
            "--bin",
            "guest",
        ]
    );
    assert_eq!(
        ex.artifacts,
        vec!["/ws/target/riscv32im-succinct-zkvm-elf/debug/deps/guest"]
    );
}

#[test]
fn ambient_cargo_vars_never_leak() {
    let ambient_pairs = vec![
        ("CARGO_HOME".to_string(), "/home/u/.cargo".to_string()),
        ("PATH".to_string(), "/usr/bin".to_string()),
        ("CARGO_ENCODED_RUSTFLAGS".to_string(), "stale".to_string()),
        ("RUSTUP_TOOLCHAIN".to_string(), "stable".to_string()),
    ];
    let ambient_names: Vec<String> = ambient_pairs.iter().map(|p| p.0.clone()).collect();
    let b = sample_builder().rust_flags(&["panic=abort"]);
    let ex = b.build_command(Profile::Debug, None, &ambient_names);
    let env = child_env(&ambient_pairs, &ex.cmd);
    for (k, v) in &env {
        if k.starts_with("CARGO") || k == "RUSTUP_TOOLCHAIN" {
            // every such pair was set by the assembler, never inherited
            assert!(ex.cmd.env_set.iter().any(|p| &p.0 == k && &p.1 == v));
        }
    }
    assert!(env.iter().any(|p| p.0 == "PATH" && p.1 == "/usr/bin"));
    assert!(!env.iter().any(|p| p.1 == "stale" || p.1 == "/home/u/.cargo"));
}

#[test]
fn sanitized_cmd_strips_ambient() {
    let ambient = vec!["CARGO_HOME".to_string(), "HOME".to_string()];
    let inv = sanitized_cmd("rustup", &ambient);
    assert_eq!(inv.program, "rustup");
    assert_eq!(inv.env_remove, vec!["CARGO_HOME", "RUSTUP_TOOLCHAIN"]);
    assert!(inv.env_set.is_empty());
    assert!(inv.args.is_empty());
}

#[test]
fn sanitize_respects_listed_names() {
    let b = sample_builder().sanitized_env(&["MY_VAR"]);
    let ambient = vec!["CARGO_HOME".to_string(), "PATH".to_string()];
    assert_eq!(b.sanitize(&ambient, true), vec!["CARGO_HOME", "MY_VAR"]);
    assert_eq!(b.sanitize(&ambient, false), vec!["MY_VAR"]);
}

#[test]
fn risc0_cargo_command_fixed_constants() {
    let ambient = vec!["CARGO_HOME".to_string()];
    let inv = cargo_command(
        "build",
        &["opt-level=3"],
        "/tc/rustc",
        true,
        None,
        "/data/cargo-risczero",
        &ambient,
    );
    assert_eq!(inv.program, "cargo");
    assert_eq!(
        inv.args,
        vec!["build", "--target", "riscv32im-risc0-zkvm-elf", "--locked"]
    );
    assert_eq!(inv.env_remove, vec!["CARGO_HOME", "RUSTUP_TOOLCHAIN"]);
    assert_eq!(
        inv.env_set,
        vec![
            ("RUSTC".to_string(), "/tc/rustc".to_string()),
            (
                "CARGO_ENCODED_RUSTFLAGS".to_string(),
                "opt-level=3\u{1f}-C\u{1f}passes=loweratomic\u{1f}-C\u{1f}link-arg=-Ttext=0x00200800\u{1f}-C\u{1f}link-arg=--fatal-warnings\u{1f}-C\u{1f}panic=abort".to_string()
            ),
            (
                "CC".to_string(),
                "/data/cargo-risczero/cpp/bin/riscv32-unknown-elf-gcc".to_string()
            ),
            (
                "CFLAGS_riscv32im_risc0_zkvm_elf".to_string(),
                "-march=rv32im -nostdlib".to_string()
            ),
        ]
    );
}

#[test]
fn risc0_cargo_command_with_source_rebuild() {
    let ambient: Vec<String> = Vec::new();
    let inv = cargo_command(
        "test",
        &[],
        "/tc/rustc",
        false,
        Some("/src/rust".to_string()),
        "/d",
        &ambient,
    );
    assert_eq!(
        inv.args,
        vec![
            "test",
            "--target",
            "riscv32im-risc0-zkvm-elf",
            "-Z",
            "build-std=alloc,core,proc_macro,panic_abort,std",
            "-Z",
            "build-std-features=compiler-builtins-mem",
        ]
    );
    assert_eq!(
        inv.env_set[0],
        (
            "__CARGO_TESTS_ONLY_SRC_ROOT".to_string(),
            "/src/rust".to_string()
        )
    );
}

#[test]
fn risc0_data_dir_fallbacks() {
    let r = risc0_data(Some("/override".to_string()), Some("/d".to_string()), None);
    assert_eq!(r.unwrap(), "/override");
    let r = risc0_data(None, Some("/d".to_string()), Some("/h".to_string()));
    assert_eq!(r.unwrap(), "/d/cargo-risczero");
    let r = risc0_data(None, None, Some("/h".to_string()));
    assert_eq!(r.unwrap(), "/h/.cargo-risczero");
    let r = risc0_data(None, None, None);
    assert!(matches!(r, Err(BuildError::ToolchainResolution)));
}

#[test]
fn is_debug_reads_the_switch() {
    assert!(is_debug("1"));
    assert!(!is_debug("0"));
    assert!(!is_debug(""));
    assert!(!is_debug("true"));
}

#[test]
fn metadata_partitions_by_kind() {
    let meta = sample_meta();
    let bins: Vec<String> = meta.bins().into_iter().map(|t| t.name).collect();
    assert_eq!(bins, vec!["guest", "other"]);
    let tests: Vec<String> = meta.tests().into_iter().map(|t| t.name).collect();
    assert_eq!(tests, vec!["guest"]);
    let libs: Vec<String> = meta.libs().into_iter().map(|t| t.name).collect();
    assert_eq!(libs, vec!["helpers"]);
    assert!(meta.examples().is_empty());
    assert!(meta.benchs().is_empty());
    assert!(meta.build_scripts().is_empty());
}
