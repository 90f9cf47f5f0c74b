//! Decimal rendering, identifier derivation, and the generated source
//! constants, including the exact golden output for one artifact.

use guest_build::entry::{derive_ident, GuestListEntry};
use guest_build::errors::BuildError;
use guest_build::executor::Executor;
use guest_build::builder::ProcessInvocation;
use guest_build::numfmt::{render_u32_list, render_u8_list, u32_dec};
use guest_build::text::{file_name, parent_dir, path_join, trim};

#[test]
fn decimal_rendering() {
    assert_eq!(u32_dec(0), "0");
    assert_eq!(u32_dec(7), "7");
    assert_eq!(u32_dec(173), "173");
    assert_eq!(u32_dec(4294967295), "4294967295");
}

#[test]
fn array_literals() {
    assert_eq!(render_u8_list(&Vec::new()), "[]");
    assert_eq!(render_u8_list(&vec![222u8, 173]), "[222, 173]");
    assert_eq!(render_u32_list(&vec![9u32]), "[9]");
    assert_eq!(
        render_u32_list(&vec![1u32, 2, 3, 4, 5, 6, 7, 8]),
        "[1, 2, 3, 4, 5, 6, 7, 8]"
    );
}

#[test]
fn identifier_derivation() {
    assert_eq!(derive_ident("my-test"), "MY_TEST");
    assert_eq!(derive_ident("guest"), "TEST");
    assert_eq!(derive_ident("multi-sig-checker"), "MULTI_SIG_TEST");
    assert_eq!(derive_ident("9-x"), "_9_TEST");
    assert_eq!(derive_ident("a.b"), "A_TEST");
}

#[test]
fn golden_codegen_for_one_artifact() {
    let entry = GuestListEntry::build(
        "my-test",
        vec![0xDEu8, 0xAD],
        [1u32, 2, 3, 4, 5, 6, 7, 8],
        "/out/my-test",
    );
    let text = entry.codegen_consts().unwrap();
    let expected = "\npub const MY_TEST_ELF: &[u8] = &[222, 173];\npub const MY_TEST_ID: [u32; 8] = [1, 2, 3, 4, 5, 6, 7, 8];\npub const MY_TEST_PATH: &str = r#\"/out/my-test\"#;\n";
    assert_eq!(text, expected);
}

#[test]
fn unsafe_path_is_rejected_with_nothing_written() {
    let entry = GuestListEntry::build("m", vec![1u8], [0u32; 8], "/out/#escape");
    assert!(matches!(
        entry.codegen_consts(),
        Err(BuildError::UnsafePathRejected)
    ));

    let ex = Executor {
        cmd: ProcessInvocation {
            program: "cargo".to_string(),
            args: Vec::new(),
            current_dir: String::new(),
            env_remove: Vec::new(),
            env_set: Vec::new(),
        },
        artifacts: Vec::new(),
        test: false,
    };
    let good = GuestListEntry::build("ok", vec![1u8], [0u32; 8], "/out/ok");
    let bad = GuestListEntry::build("m", vec![1u8], [0u32; 8], "/out/#escape");
    let r = ex.risc0_placement(&vec![good, bad]);
    // the whole unit is rejected: zero bytes for the output file
    assert!(matches!(r, Err(BuildError::UnsafePathRejected)));
}

#[test]
fn generated_unit_concatenates_in_input_order() {
    let ex = Executor {
        cmd: ProcessInvocation {
            program: "cargo".to_string(),
            args: Vec::new(),
            current_dir: String::new(),
            env_remove: Vec::new(),
            env_set: Vec::new(),
        },
        artifacts: Vec::new(),
        test: false,
    };
    let a = GuestListEntry::build("a-bin", vec![1u8], [0u32; 8], "/out/a-bin");
    let b = GuestListEntry::build("b-bin", vec![2u8], [0u32; 8], "/out/b-bin");
    let unit = ex.risc0_placement(&vec![a, b]).unwrap();
    let first = unit.find("A_TEST_ELF").unwrap();
    let second = unit.find("B_TEST_ELF").unwrap();
    assert!(first < second);
}

#[test]
fn path_helpers() {
    assert_eq!(file_name("a/b/c"), "c");
    assert_eq!(file_name("noslash"), "noslash");
    assert_eq!(parent_dir("/ws/target"), "/ws");
    assert_eq!(parent_dir("plain"), "");
    assert_eq!(path_join("/a", "b"), "/a/b");
    assert_eq!(path_join("/a/", "b"), "/a/b");
    assert_eq!(path_join("/a", "/b"), "/b");
    assert_eq!(trim("  x \n"), "x");
    assert_eq!(trim("\t\n "), "");
}
