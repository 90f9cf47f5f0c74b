//! The risc0-flavoured command assembly: the same pipeline as the
//! builder, with that toolchain's fixed target triple, default compiler
//! flags, and data-directory convention supplied as constants.

use vstd::prelude::*;

use crate::builder::{
    cargo_name_pred, filter_cargo_names, flag_sep, ProcessInvocation, to_strings,
};
use crate::errors::BuildError;
use crate::sep::{join_str, join_with};
use crate::text::{option_str_view, pair_views, path_join, path_join_spec, str_eq, str_views,
    strref_views};

verus! {

/// Whether debug output was requested of the build: the configuration
/// variable's value, read by the caller, set to the on switch.
pub fn is_debug(value: &str) -> (r: bool)
    ensures
        r == (value@ == "1"@),
{
    str_eq(value, "1")
}

/// Where the toolchain's downloaded data lives: the explicit override
/// when set, else the platform data directory, else a dot-directory
/// under the home directory; with none of the three available the
/// location cannot be resolved.
pub fn risc0_data(
    env_dir: Option<String>,
    data_dir: Option<String>,
    home_dir: Option<String>,
) -> (r: Result<String, BuildError>)
    ensures
        env_dir matches Option::Some(d) ==> (r matches Result::Ok(p) && p == d),
        env_dir is None && data_dir is Some ==> (r matches Result::Ok(p) && p@ == path_join_spec(
            data_dir->Some_0@,
            "cargo-risczero"@,
        )),
        env_dir is None && data_dir is None && home_dir is Some ==> (r matches Result::Ok(p) && p@
            == path_join_spec(home_dir->Some_0@, ".cargo-risczero"@)),
        env_dir is None && data_dir is None && home_dir is None ==> (r matches Result::Err(e)
            && e matches BuildError::ToolchainResolution),
{
    match env_dir {
        Option::Some(d) => Result::Ok(d),
        Option::None => match data_dir {
            Option::Some(d) => Result::Ok(path_join(d.as_str(), "cargo-risczero")),
            Option::None => match home_dir {
                Option::Some(h) => Result::Ok(path_join(h.as_str(), ".cargo-risczero")),
                Option::None => Result::Err(BuildError::ToolchainResolution),
            },
        },
    }
}

/// The compiler flags every risc0 guest build carries: atomic passes
/// lowered for the single-threaded guest, the load address pinned, a
/// missing entry point turned from a linker warning into an error, and
/// aborting panics.
pub open spec fn risc0_default_flags() -> Seq<Seq<char>> {
    seq![
        "-C"@,
        "passes=loweratomic"@,
        "-C"@,
        "link-arg=-Ttext=0x00200800"@,
        "-C"@,
        "link-arg=--fatal-warnings"@,
        "-C"@,
        "panic=abort"@,
    ]
}

/// The argument list of a risc0 guest build: the subcommand, the fixed
/// target triple, the lock-file flag when requested, and the standard
/// library rebuilt from source when a source root is given.
pub open spec fn risc0_args_spec(
    subcmd: Seq<char>,
    locked: bool,
    rust_src: Option<Seq<char>>,
) -> Seq<Seq<char>> {
    seq![subcmd, "--target"@, "riscv32im-risc0-zkvm-elf"@] + (if locked {
        seq!["--locked"@]
    } else {
        Seq::<Seq<char>>::empty()
    }) + (match rust_src {
        Option::Some(_) => seq![
            "-Z"@,
            "build-std=alloc,core,proc_macro,panic_abort,std"@,
            "-Z"@,
            "build-std-features=compiler-builtins-mem"@,
        ],
        Option::None => Seq::<Seq<char>>::empty(),
    })
}

/// The environment pairs of a risc0 guest build: the source root for a
/// standard-library rebuild when given, the resolved compiler, the
/// encoded flags, and the cross C compiler with its per-target flags.
pub open spec fn risc0_env_spec(
    rustc: Seq<char>,
    flags: Seq<Seq<char>>,
    cc_root: Seq<char>,
    rust_src: Option<Seq<char>>,
) -> Seq<(Seq<char>, Seq<char>)> {
    (match rust_src {
        Option::Some(s) => seq![("__CARGO_TESTS_ONLY_SRC_ROOT"@, s)],
        Option::None => Seq::<(Seq<char>, Seq<char>)>::empty(),
    }) + seq![
        ("RUSTC"@, rustc),
        ("CARGO_ENCODED_RUSTFLAGS"@, join_with(flags + risc0_default_flags(), flag_sep())),
        ("CC"@, path_join_spec(cc_root, "cpp/bin/riscv32-unknown-elf-gcc"@)),
        ("CFLAGS_riscv32im_risc0_zkvm_elf"@, "-march=rv32im -nostdlib"@),
    ]
}

/// One risc0 guest-build invocation, assembled from the resolved
/// compiler path, the caller's extra flags, the toolchain data root for
/// the cross C compiler, and the ambient variable names to filter.
pub fn cargo_command(
    subcmd: &str,
    rust_flags: &[&str],
    rustc_path: &str,
    locked: bool,
    rust_src: Option<String>,
    cc_root: &str,
    ambient_names: &Vec<String>,
) -> (r: ProcessInvocation)
    ensures
        r.program@ == "cargo"@,
        str_views(r.args@) == risc0_args_spec(subcmd@, locked, option_str_view(rust_src)),
        r.current_dir@ == Seq::<char>::empty(),
        str_views(r.env_remove@) == str_views(ambient_names@.filter(cargo_name_pred())) + seq![
            "RUSTUP_TOOLCHAIN"@,
        ],
        pair_views(r.env_set@) == risc0_env_spec(
            rustc_path@,
            strref_views(rust_flags@),
            cc_root@,
            option_str_view(rust_src),
        ),
{
    let mut args: Vec<String> = Vec::new();
    args.push(String::from_str(subcmd));
    args.push(String::from_str("--target"));
    args.push(String::from_str("riscv32im-risc0-zkvm-elf"));
    proof {
        assert(str_views(args@) =~= seq![subcmd@, "--target"@, "riscv32im-risc0-zkvm-elf"@]);
    }
    let ghost a1 = str_views(args@);
    if locked {
        args.push(String::from_str("--locked"));
        proof {
            assert(str_views(args@) =~= a1 + seq!["--locked"@]);
        }
    } else {
        proof {
            assert(str_views(args@) =~= a1 + Seq::<Seq<char>>::empty());
        }
    }
    let ghost a2 = str_views(args@);
    if rust_src.is_some() {
        args.push(String::from_str("-Z"));
        args.push(String::from_str("build-std=alloc,core,proc_macro,panic_abort,std"));
        args.push(String::from_str("-Z"));
        args.push(String::from_str("build-std-features=compiler-builtins-mem"));
        proof {
            assert(str_views(args@) =~= a2 + seq![
                "-Z"@,
                "build-std=alloc,core,proc_macro,panic_abort,std"@,
                "-Z"@,
                "build-std-features=compiler-builtins-mem"@,
            ]);
        }
    } else {
        proof {
            assert(str_views(args@) =~= a2 + Seq::<Seq<char>>::empty());
        }
    }
    let mut removals = filter_cargo_names(ambient_names);
    let ghost r0 = str_views(removals@);
    removals.push(String::from_str("RUSTUP_TOOLCHAIN"));
    proof {
        assert(str_views(removals@) =~= r0 + seq!["RUSTUP_TOOLCHAIN"@]);
    }
    let mut env_set: Vec<(String, String)> = Vec::new();
    match &rust_src {
        Option::Some(s) => {
            env_set.push((String::from_str("__CARGO_TESTS_ONLY_SRC_ROOT"), s.clone()));
            proof {
                assert(pair_views(env_set@) =~= seq![
                    ("__CARGO_TESTS_ONLY_SRC_ROOT"@, rust_src->Some_0@),
                ]);
            }
        },
        Option::None => {
            proof {
                assert(pair_views(env_set@) =~= Seq::<(Seq<char>, Seq<char>)>::empty());
            }
        },
    }
    let ghost e1 = pair_views(env_set@);
    let mut all_flags = to_strings(rust_flags);
    let ghost given = str_views(all_flags@);
    all_flags.push(String::from_str("-C"));
    all_flags.push(String::from_str("passes=loweratomic"));
    all_flags.push(String::from_str("-C"));
    all_flags.push(String::from_str("link-arg=-Ttext=0x00200800"));
    all_flags.push(String::from_str("-C"));
    all_flags.push(String::from_str("link-arg=--fatal-warnings"));
    all_flags.push(String::from_str("-C"));
    all_flags.push(String::from_str("panic=abort"));
    proof {
        assert(str_views(all_flags@) =~= given + risc0_default_flags());
    }
    let joined = join_str(&all_flags, '\x1f');
    let cc_path = path_join(cc_root, "cpp/bin/riscv32-unknown-elf-gcc");
    env_set.push((String::from_str("RUSTC"), String::from_str(rustc_path)));
    env_set.push((String::from_str("CARGO_ENCODED_RUSTFLAGS"), joined));
    env_set.push((String::from_str("CC"), cc_path));
    env_set.push(
        (
            String::from_str("CFLAGS_riscv32im_risc0_zkvm_elf"),
            String::from_str("-march=rv32im -nostdlib"),
        ),
    );
    proof {
        assert(pair_views(env_set@) =~= e1 + seq![
            ("RUSTC"@, rustc_path@),
            (
                "CARGO_ENCODED_RUSTFLAGS"@,
                join_with(strref_views(rust_flags@) + risc0_default_flags(), flag_sep()),
            ),
            ("CC"@, path_join_spec(cc_root@, "cpp/bin/riscv32-unknown-elf-gcc"@)),
            ("CFLAGS_riscv32im_risc0_zkvm_elf"@, "-march=rv32im -nostdlib"@),
        ]);
    }
    ProcessInvocation {
        program: String::from_str("cargo"),
        args,
        current_dir: String::new(),
        env_remove: removals,
        env_set,
    }
}

} // verus!
