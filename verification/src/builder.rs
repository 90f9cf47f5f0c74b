//! The command assembler: from an immutable build configuration to a
//! full description of the child-process invocation, including the
//! argument list, the working directory, and the environment deltas that
//! keep the parent's ambient build configuration out of the nested
//! cross-build.

use vstd::prelude::*;

use crate::errors::BuildError;
use crate::executor::Executor;
use crate::model::{Metadata, Target, TargetKind};
use crate::sep::join_with;
use crate::text::{
    is_prefix_of, pair_views, parent_dir, parent_dir_spec, path_join, path_join_spec, str_eq,
    str_views, starts_with_prefix, strref_views, trim, trim_spec,
};

verus! {

/// The separator the build tool expects between encoded compiler flags.
pub open spec fn flag_sep() -> char {
    '\x1f'
}

/// The build optimization mode requested for one invocation.
#[derive(Clone, Copy, PartialEq, Eq, Structural, Debug)]
pub enum Profile {
    Debug,
    Release,
}

impl Profile {
    /// The directory the build tool writes this profile's output under.
    pub open spec fn dir_name_spec(self) -> Seq<char> {
        match self {
            Profile::Debug => "debug"@,
            Profile::Release => "release"@,
        }
    }

    pub fn dir_name(&self) -> (r: &'static str)
        ensures
            r@ == self.dir_name_spec(),
    {
        match self {
            Profile::Debug => "debug",
            Profile::Release => "release",
        }
    }
}

/// A full description of one child-process invocation.  The environment
/// is given as deltas against the inherited one: names to remove first,
/// then pairs to set.
#[derive(Debug)]
pub struct ProcessInvocation {
    pub program: String,
    pub args: Vec<String>,
    pub current_dir: String,
    pub env_remove: Vec<String>,
    pub env_set: Vec<(String, String)>,
}

/// Some listed name reads as `k`.
pub open spec fn removed_key(removals: Seq<String>, k: Seq<char>) -> bool {
    exists|i: int| 0 <= i < removals.len() && #[trigger] removals[i]@ == k
}

/// Some set pair carries the key `k`.
pub open spec fn set_key(sets: Seq<(String, String)>, k: Seq<char>) -> bool {
    exists|i: int| 0 <= i < sets.len() && (#[trigger] sets[i]).0@ == k
}

/// An inherited pair survives when its key is neither removed nor
/// overridden by an explicit setting.
pub open spec fn survives(removals: Seq<String>, sets: Seq<(String, String)>) -> spec_fn(
    (String, String),
) -> bool {
    |p: (String, String)| !removed_key(removals, p.0@) && !set_key(sets, p.0@)
}

/// The environment the child process sees: the inherited pairs that
/// survive the deltas, then the explicit settings.
pub open spec fn child_env_spec(
    ambient: Seq<(String, String)>,
    removals: Seq<String>,
    sets: Seq<(String, String)>,
) -> Seq<(String, String)> {
    ambient.filter(survives(removals, sets)) + sets
}

fn key_removed(removals: &Vec<String>, k: &str) -> (r: bool)
    ensures
        r == removed_key(removals@, k@),
{
    let mut i: usize = 0;
    while i < removals.len()
        invariant
            i <= removals@.len(),
            forall|j: int| 0 <= j < i ==> #[trigger] removals@[j]@ != k@,
        decreases removals@.len() - i,
    {
        if str_eq(removals[i].as_str(), k) {
            return true;
        }
        i += 1;
    }
    false
}

fn key_set(sets: &Vec<(String, String)>, k: &str) -> (r: bool)
    ensures
        r == set_key(sets@, k@),
{
    let mut i: usize = 0;
    while i < sets.len()
        invariant
            i <= sets@.len(),
            forall|j: int| 0 <= j < i ==> (#[trigger] sets@[j]).0@ != k@,
        decreases sets@.len() - i,
    {
        if str_eq(sets[i].0.as_str(), k) {
            return true;
        }
        i += 1;
    }
    false
}

/// The effective child environment for an invocation, computed from the
/// inherited pairs that the caller read once and passes in as values.
pub fn child_env(ambient: &Vec<(String, String)>, inv: &ProcessInvocation) -> (r: Vec<
    (String, String),
>)
    ensures
        r@ == child_env_spec(ambient@, inv.env_remove@, inv.env_set@),
{
    let ghost pred = survives(inv.env_remove@, inv.env_set@);
    let mut r: Vec<(String, String)> = Vec::new();
    let mut i: usize = 0;
    proof {
        assert(ambient@.subrange(0, 0) =~= Seq::<(String, String)>::empty());
        assert(Seq::<(String, String)>::empty().filter(pred) =~= Seq::<(String, String)>::empty());
    }
    while i < ambient.len()
        invariant
            i <= ambient@.len(),
            pred == survives(inv.env_remove@, inv.env_set@),
            r@ == ambient@.subrange(0, i as int).filter(pred),
        decreases ambient@.len() - i,
    {
        proof {
            let pre = ambient@.subrange(0, i as int);
            let elem = ambient@[i as int];
            pre.lemma_filter_push(elem, pred);
            assert(ambient@.subrange(0, i + 1) =~= pre.push(elem));
        }
        let keep = !key_removed(&inv.env_remove, ambient[i].0.as_str()) && !key_set(
            &inv.env_set,
            ambient[i].0.as_str(),
        );
        if keep {
            let k = ambient[i].0.clone();
            let v = ambient[i].1.clone();
            proof {
                assert((k, v) == ambient@[i as int]);
            }
            r.push((k, v));
        }
        i += 1;
    }
    let mut j: usize = 0;
    proof {
        assert(ambient@.subrange(0, ambient@.len() as int) =~= ambient@);
        assert(r@ + inv.env_set@.subrange(0, 0) =~= r@);
    }
    let ghost base = r@;
    while j < inv.env_set.len()
        invariant
            j <= inv.env_set@.len(),
            r@ == base + inv.env_set@.subrange(0, j as int),
        decreases inv.env_set@.len() - j,
    {
        let k = inv.env_set[j].0.clone();
        let v = inv.env_set[j].1.clone();
        proof {
            assert((k, v) == inv.env_set@[j as int]);
            assert((base + inv.env_set@.subrange(0, j as int)).push(inv.env_set@[j as int]) =~= base
                + inv.env_set@.subrange(0, j + 1));
        }
        r.push((k, v));
        j += 1;
    }
    proof {
        assert(inv.env_set@.subrange(0, inv.env_set@.len() as int) =~= inv.env_set@);
    }
    r
}

/// What the filter kept was in the row it filtered.
proof fn lemma_filter_member<A>(s: Seq<A>, pred: spec_fn(A) -> bool, x: A)
    requires
        s.filter(pred).contains(x),
    ensures
        s.contains(x),
    decreases s.len(),
{
    reveal(Seq::filter);
    let fs = s.filter(pred);
    if s.len() == 0 {
    } else {
        let prev = s.drop_last().filter(pred);
        let i = choose|i: int| 0 <= i < fs.len() && fs[i] == x;
        if pred(s.last()) && i == fs.len() - 1 {
            assert(s[s.len() - 1] == x);
        } else {
            assert(prev[i] == x);
            assert(prev.contains(x));
            lemma_filter_member(s.drop_last(), pred, x);
            let j = choose|j: int| 0 <= j < s.drop_last().len() && s.drop_last()[j] == x;
            assert(s[j] == x);
        }
    }
}

/// The law of ambient isolation: when every inherited name carrying the
/// build tool's ambient prefix stands in the removal list, no pair of
/// the child's environment with such a name comes from the inherited
/// environment; any such pair is one the assembler set itself.
pub proof fn lemma_no_ambient_leak(
    ambient: Seq<(String, String)>,
    removals: Seq<String>,
    sets: Seq<(String, String)>,
)
    requires
        forall|j: int|
            0 <= j < ambient.len() && is_prefix_of("CARGO"@, (#[trigger] ambient[j]).0@)
                ==> removed_key(removals, ambient[j].0@),
    ensures
        forall|p: (String, String)|
            child_env_spec(ambient, removals, sets).contains(p) && is_prefix_of("CARGO"@, p.0@)
                ==> sets.contains(p),
{
    let pred = survives(removals, sets);
    let kept = ambient.filter(pred);
    ambient.filter_lemma(pred);
    assert forall|p: (String, String)|
        child_env_spec(ambient, removals, sets).contains(p) && is_prefix_of(
            "CARGO"@,
            p.0@,
        ) implies sets.contains(p) by {
        let ce = child_env_spec(ambient, removals, sets);
        let ix = choose|ix: int| 0 <= ix < ce.len() && ce[ix] == p;
        if ix < kept.len() {
            assert(kept[ix] == p);
            assert(kept.contains(p));
            assert(pred(p));
            lemma_filter_member(ambient, pred, p);
            let ja = choose|ja: int| 0 <= ja < ambient.len() && ambient[ja] == p;
            assert(removed_key(removals, ambient[ja].0@));
            assert(false);
        } else {
            assert(ce[ix] == sets[ix - kept.len()]);
        }
    }
}

/// Owned copies of a row of borrowed strings.
pub fn to_strings(strs: &[&str]) -> (r: Vec<String>)
    ensures
        str_views(r@) == strref_views(strs@),
{
    let mut r: Vec<String> = Vec::new();
    let mut i: usize = 0;
    while i < strs.len()
        invariant
            i <= strs@.len(),
            r@.len() == i,
            forall|j: int| 0 <= j < i ==> (#[trigger] r@[j])@ == strs@[j]@,
        decreases strs@.len() - i,
    {
        r.push(String::from_str(strs[i]));
        i += 1;
    }
    proof {
        assert(str_views(r@) =~= strref_views(strs@));
    }
    r
}

fn clone_strings(v: &Vec<String>) -> (r: Vec<String>)
    ensures
        r@ == v@,
{
    let mut r: Vec<String> = Vec::new();
    let mut i: usize = 0;
    while i < v.len()
        invariant
            i <= v@.len(),
            r@.len() == i,
            forall|j: int| 0 <= j < i ==> r@[j] == v@[j],
        decreases v@.len() - i,
    {
        r.push(v[i].clone());
        i += 1;
    }
    proof {
        assert(r@ =~= v@);
    }
    r
}

fn append_string_clones(dst: &mut Vec<String>, src: &Vec<String>)
    ensures
        final(dst)@ == old(dst)@ + src@,
{
    let mut i: usize = 0;
    proof {
        assert(dst@ =~= dst@ + src@.subrange(0, 0));
    }
    while i < src.len()
        invariant
            i <= src@.len(),
            dst@ == old(dst)@ + src@.subrange(0, i as int),
        decreases src@.len() - i,
    {
        proof {
            assert((old(dst)@ + src@.subrange(0, i as int)).push(src@[i as int]) =~= old(dst)@
                + src@.subrange(0, i + 1));
        }
        dst.push(src[i].clone());
        i += 1;
    }
    proof {
        assert(src@.subrange(0, src@.len() as int) =~= src@);
    }
}

fn append_pair_clones(dst: &mut Vec<(String, String)>, src: &Vec<(String, String)>)
    ensures
        final(dst)@ == old(dst)@ + src@,
{
    let mut i: usize = 0;
    proof {
        assert(dst@ =~= dst@ + src@.subrange(0, 0));
    }
    while i < src.len()
        invariant
            i <= src@.len(),
            dst@ == old(dst)@ + src@.subrange(0, i as int),
        decreases src@.len() - i,
    {
        let k = src[i].0.clone();
        let v = src[i].1.clone();
        proof {
            assert((k, v) == src@[i as int]);
            assert((old(dst)@ + src@.subrange(0, i as int)).push(src@[i as int]) =~= old(dst)@
                + src@.subrange(0, i + 1));
        }
        dst.push((k, v));
        i += 1;
    }
    proof {
        assert(src@.subrange(0, src@.len() as int) =~= src@);
    }
}

/// The flag word repeated before every item, as the build tool's
/// command line wants it.
pub open spec fn interleave_flag(flag: Seq<char>, items: Seq<Seq<char>>) -> Seq<Seq<char>>
    decreases items.len(),
{
    if items.len() == 0 {
        Seq::empty()
    } else {
        seq![flag, items[0]] + interleave_flag(flag, items.drop_first())
    }
}

proof fn lemma_interleave_push(flag: Seq<char>, items: Seq<Seq<char>>, x: Seq<char>)
    ensures
        interleave_flag(flag, items.push(x)) == interleave_flag(flag, items) + seq![flag, x],
    decreases items.len(),
{
    if items.len() == 0 {
        assert(items.push(x)[0] == x);
        assert(items.push(x).drop_first() =~= Seq::<Seq<char>>::empty());
        assert(interleave_flag(flag, Seq::<Seq<char>>::empty()) =~= Seq::<Seq<char>>::empty());
        assert(interleave_flag(flag, items.push(x)) =~= seq![flag, x]);
        assert(interleave_flag(flag, items) + seq![flag, x] =~= seq![flag, x]);
    } else {
        lemma_interleave_push(flag, items.drop_first(), x);
        assert(items.push(x).drop_first() =~= items.drop_first().push(x));
        assert(items.push(x)[0] == items[0]);
        assert(seq![flag, items[0]] + (interleave_flag(flag, items.drop_first()) + seq![flag, x])
            =~= (seq![flag, items[0]] + interleave_flag(flag, items.drop_first())) + seq![
            flag,
            x,
        ]);
    }
}

/// The flag word interleaved before each item: the shape `-C <flag>`
/// repeated, ready to splice into an argument list.
pub fn format_flags(flag: &str, items: &Vec<String>) -> (r: Vec<String>)
    ensures
        str_views(r@) == interleave_flag(flag@, str_views(items@)),
{
    let ghost dv = str_views(items@);
    let mut r: Vec<String> = Vec::new();
    let mut i: usize = 0;
    proof {
        assert(dv.subrange(0, 0) =~= Seq::<Seq<char>>::empty());
        assert(str_views(r@) =~= interleave_flag(flag@, dv.subrange(0, 0)));
    }
    while i < items.len()
        invariant
            i <= items@.len(),
            dv == str_views(items@),
            dv.len() == items@.len(),
            str_views(r@) == interleave_flag(flag@, dv.subrange(0, i as int)),
        decreases items@.len() - i,
    {
        proof {
            lemma_interleave_push(flag@, dv.subrange(0, i as int), dv[i as int]);
            assert(dv.subrange(0, i as int).push(dv[i as int]) =~= dv.subrange(0, i + 1));
        }
        r.push(String::from_str(flag));
        r.push(items[i].clone());
        proof {
            assert(str_views(r@) =~= interleave_flag(flag@, dv.subrange(0, i as int)) + seq![
                flag@,
                dv[i as int],
            ]);
        }
        i += 1;
    }
    proof {
        assert(dv.subrange(0, dv.len() as int) =~= dv);
    }
    r
}

/// A name that signals ambient build-tool configuration.
pub open spec fn cargo_name_pred() -> spec_fn(String) -> bool {
    |s: String| is_prefix_of("CARGO"@, s@)
}

pub fn filter_cargo_names(ambient_names: &Vec<String>) -> (r: Vec<String>)
    ensures
        r@ == ambient_names@.filter(cargo_name_pred()),
{
    let ghost pred = cargo_name_pred();
    let mut r: Vec<String> = Vec::new();
    let mut i: usize = 0;
    proof {
        assert(ambient_names@.subrange(0, 0) =~= Seq::<String>::empty());
        assert(Seq::<String>::empty().filter(pred) =~= Seq::<String>::empty());
    }
    while i < ambient_names.len()
        invariant
            i <= ambient_names@.len(),
            pred == cargo_name_pred(),
            r@ == ambient_names@.subrange(0, i as int).filter(pred),
        decreases ambient_names@.len() - i,
    {
        proof {
            let pre = ambient_names@.subrange(0, i as int);
            pre.lemma_filter_push(ambient_names@[i as int], pred);
            assert(ambient_names@.subrange(0, i + 1) =~= pre.push(ambient_names@[i as int]));
        }
        if starts_with_prefix(ambient_names[i].as_str(), "CARGO") {
            r.push(ambient_names[i].clone());
        }
        i += 1;
    }
    proof {
        assert(ambient_names@.subrange(0, ambient_names@.len() as int) =~= ambient_names@);
    }
    r
}

/// The compiler-flag list as the single environment value the build
/// tool reads: the elements joined on the control character.
pub fn encode_flags(items: &Vec<String>) -> (r: String)
    ensures
        r@ == join_with(str_views(items@), flag_sep()),
{
    crate::sep::join_str(items, '\x1f')
}

/// The build tool's expected decoding of the encoded flag value: the
/// text divided on the control character, with the empty value read as
/// no flags at all.
pub fn decode_flags(s: &str) -> (r: Vec<String>)
    ensures
        s@.len() == 0 ==> str_views(r@) == Seq::<Seq<char>>::empty(),
        s@.len() > 0 ==> str_views(r@) == crate::sep::split_on(s@, flag_sep()),
{
    if s.unicode_len() == 0 {
        let r: Vec<String> = Vec::new();
        proof {
            assert(str_views(r@) =~= Seq::<Seq<char>>::empty());
        }
        r
    } else {
        crate::sep::split_str(s, '\x1f')
    }
}

/// The law of the flag encoding: a non-empty flag list whose elements
/// are free of the control character is recovered element for element
/// by dividing the joined value on that character again.
pub proof fn lemma_flag_encoding_round_trip(l: Seq<Seq<char>>)
    requires
        l.len() >= 1,
        forall|i: int| 0 <= i < l.len() ==> !(#[trigger] l[i]).contains(flag_sep()),
    ensures
        crate::sep::split_on(join_with(l, flag_sep()), flag_sep()) == l,
{
    crate::sep::lemma_split_join(l, flag_sep());
}

/// The assembler's removal list covers every ambient name that carries
/// the build tool's prefix.
pub proof fn lemma_remove_spec_covers(
    b: GuestBuilder,
    ambient_names: Seq<String>,
    removals: Seq<String>,
)
    requires
        str_views(removals) == env_remove_spec(b, ambient_names),
    ensures
        forall|j: int|
            0 <= j < ambient_names.len() && is_prefix_of("CARGO"@, (#[trigger] ambient_names[j])@)
                ==> removed_key(removals, ambient_names[j]@),
{
    let pred = cargo_name_pred();
    let kept = ambient_names.filter(pred);
    ambient_names.filter_lemma(pred);
    assert forall|j: int|
        0 <= j < ambient_names.len() && is_prefix_of(
            "CARGO"@,
            (#[trigger] ambient_names[j])@,
        ) implies removed_key(removals, ambient_names[j]@) by {
        assert(pred(ambient_names[j]));
        assert(kept.contains(ambient_names[j]));
        let k = choose|k: int| 0 <= k < kept.len() && kept[k] == ambient_names[j];
        assert(str_views(removals).len() == removals.len());
        assert(str_views(kept).len() == kept.len());
        assert(0 <= k < removals.len());
        assert(str_views(removals)[k] == str_views(kept)[k]);
        assert(str_views(removals)[k] == kept[k]@);
        assert(removals[k]@ == ambient_names[j]@);
    }
}

/// The law of ambient isolation for a whole assembled invocation: no
/// pair of the child's environment whose name carries the build tool's
/// prefix survives from the inherited environment.
pub proof fn lemma_assembled_isolation(
    b: GuestBuilder,
    ambient: Seq<(String, String)>,
    ambient_names: Seq<String>,
    removals: Seq<String>,
    sets: Seq<(String, String)>,
)
    requires
        ambient_names.len() == ambient.len(),
        forall|j: int| 0 <= j < ambient.len() ==> (#[trigger] ambient_names[j])@ == ambient[j].0@,
        str_views(removals) == env_remove_spec(b, ambient_names),
    ensures
        forall|p: (String, String)|
            child_env_spec(ambient, removals, sets).contains(p) && is_prefix_of("CARGO"@, p.0@)
                ==> sets.contains(p),
{
    lemma_remove_spec_covers(b, ambient_names, removals);
    assert forall|j: int|
        0 <= j < ambient.len() && is_prefix_of(
            "CARGO"@,
            (#[trigger] ambient[j]).0@,
        ) implies removed_key(removals, ambient[j].0@) by {
        assert(ambient_names[j]@ == ambient[j].0@);
    }
    lemma_no_ambient_leak(ambient, removals, sets);
}

/// An immutable build configuration: the workspace picture, the
/// cross-compilation target, the resolved toolchain-specific tools, and
/// the flag and environment overrides.  Every configuring method
/// consumes the value and returns a new one.
#[derive(Debug)]
pub struct GuestBuilder {
    pub meta: Metadata,
    pub target: String,
    pub sanitized_env: Vec<String>,
    pub cargo: String,
    pub rustc_compiler: String,
    pub rust_flags: Option<Vec<String>>,
    pub z_flags: Option<Vec<String>>,
    pub cc_compiler: Option<String>,
    pub c_flags: Option<Vec<String>>,
    pub custom_args: Vec<String>,
    pub custom_env: Vec<(String, String)>,
}

/// The output of one toolchain query, reduced to the tool's path: the
/// trimmed text when it is non-empty, nothing otherwise.
pub open spec fn resolved_tool(o: Option<String>) -> Option<Seq<char>> {
    match o {
        Option::Some(s) => if trim_spec(s@).len() > 0 {
            Option::Some(trim_spec(s@))
        } else {
            Option::None
        },
        Option::None => Option::None,
    }
}

/// The configuration and workspace parts that the configuring methods
/// leave untouched.
pub open spec fn same_core(a: GuestBuilder, b: GuestBuilder) -> bool {
    &&& a.meta == b.meta
    &&& a.target == b.target
    &&& a.sanitized_env == b.sanitized_env
    &&& a.cargo == b.cargo
    &&& a.rustc_compiler == b.rustc_compiler
}

impl GuestBuilder {
    /// A fresh configuration from the workspace picture and the two
    /// tool paths that the toolchain query reported.  An absent or
    /// blank report means the toolchain cannot be resolved, and nothing
    /// is ever spawned in that case.
    pub fn new(
        meta: &Metadata,
        target: &str,
        cargo_which: Option<String>,
        rustc_which: Option<String>,
    ) -> (r: Result<GuestBuilder, BuildError>)
        ensures
            r is Ok <==> (resolved_tool(cargo_which) is Some && resolved_tool(rustc_which)
                is Some),
            r matches Result::Ok(b) ==> {
                &&& b.meta.targets@ == meta.targets@
                &&& b.meta.target_directory == meta.target_directory
                &&& b.target@ == target@
                &&& b.sanitized_env@ == Seq::<String>::empty()
                &&& b.cargo@ == resolved_tool(cargo_which)->Some_0
                &&& b.rustc_compiler@ == resolved_tool(rustc_which)->Some_0
                &&& b.rust_flags is None
                &&& b.z_flags is None
                &&& b.cc_compiler is None
                &&& b.c_flags is None
                &&& b.custom_args@ == Seq::<String>::empty()
                &&& b.custom_env@ == Seq::<(String, String)>::empty()
            },
            r matches Result::Err(e) ==> e matches BuildError::ToolchainResolution,
    {
        let cargo = match cargo_which {
            Option::Some(s) => {
                let t = trim(s.as_str());
                if t.as_str().unicode_len() == 0 {
                    return Result::Err(BuildError::ToolchainResolution);
                }
                t
            },
            Option::None => {
                return Result::Err(BuildError::ToolchainResolution);
            },
        };
        let rustc = match rustc_which {
            Option::Some(s) => {
                let t = trim(s.as_str());
                if t.as_str().unicode_len() == 0 {
                    return Result::Err(BuildError::ToolchainResolution);
                }
                t
            },
            Option::None => {
                return Result::Err(BuildError::ToolchainResolution);
            },
        };
        Result::Ok(
            GuestBuilder {
                meta: meta.clone(),
                target: String::from_str(target),
                sanitized_env: Vec::new(),
                cargo,
                rustc_compiler: rustc,
                rust_flags: Option::None,
                z_flags: Option::None,
                cc_compiler: Option::None,
                c_flags: Option::None,
                custom_args: Vec::new(),
                custom_env: Vec::new(),
            },
        )
    }

    /// Names to strip from the child's environment on top of the fixed
    /// ambient-prefix rule.
    pub fn sanitized_env(self, env_vars: &[&str]) -> (r: Self)
        ensures
            same_core_except_sanitized(self, r),
            str_views(r.sanitized_env@) == strref_views(env_vars@),
    {
        GuestBuilder { sanitized_env: to_strings(env_vars), ..self }
    }

    /// Compiler flags to encode into the build tool's flag variable.
    pub fn rust_flags(self, flags: &[&str]) -> (r: Self)
        ensures
            same_core(r, self),
            r.rust_flags matches Option::Some(v) && str_views(v@) == strref_views(flags@),
            r.z_flags == self.z_flags,
            r.cc_compiler == self.cc_compiler,
            r.c_flags == self.c_flags,
            r.custom_args == self.custom_args,
            r.custom_env == self.custom_env,
    {
        GuestBuilder { rust_flags: Option::Some(to_strings(flags)), ..self }
    }

    /// Unstable build-tool options, passed as repeated `-Z` arguments.
    pub fn z_flags(self, flags: &[&str]) -> (r: Self)
        ensures
            same_core(r, self),
            r.z_flags matches Option::Some(v) && str_views(v@) == strref_views(flags@),
            r.rust_flags == self.rust_flags,
            r.cc_compiler == self.cc_compiler,
            r.c_flags == self.c_flags,
            r.custom_args == self.custom_args,
            r.custom_env == self.custom_env,
    {
        GuestBuilder { z_flags: Option::Some(to_strings(flags)), ..self }
    }

    /// The cross C compiler for native sub-compilation.
    pub fn cc_compiler(self, compiler: String) -> (r: Self)
        ensures
            same_core(r, self),
            r.cc_compiler matches Option::Some(v) && v == compiler,
            r.rust_flags == self.rust_flags,
            r.z_flags == self.z_flags,
            r.c_flags == self.c_flags,
            r.custom_args == self.custom_args,
            r.custom_env == self.custom_env,
    {
        GuestBuilder { cc_compiler: Option::Some(compiler), ..self }
    }

    /// Flags for the cross C compiler.
    pub fn c_flags(self, flags: &[&str]) -> (r: Self)
        ensures
            same_core(r, self),
            r.c_flags matches Option::Some(v) && str_views(v@) == strref_views(flags@),
            r.rust_flags == self.rust_flags,
            r.z_flags == self.z_flags,
            r.cc_compiler == self.cc_compiler,
            r.custom_args == self.custom_args,
            r.custom_env == self.custom_env,
    {
        GuestBuilder { c_flags: Option::Some(to_strings(flags)), ..self }
    }

    /// Raw arguments appended verbatim after the assembled ones.
    pub fn custom_args(self, args: &[&str]) -> (r: Self)
        ensures
            same_core(r, self),
            str_views(r.custom_args@) == strref_views(args@),
            r.rust_flags == self.rust_flags,
            r.z_flags == self.z_flags,
            r.cc_compiler == self.cc_compiler,
            r.c_flags == self.c_flags,
            r.custom_env == self.custom_env,
    {
        GuestBuilder { custom_args: to_strings(args), ..self }
    }

    /// Extra environment pairs set for the child.
    pub fn custom_env(self, env: Vec<(String, String)>) -> (r: Self)
        ensures
            same_core(r, self),
            r.custom_env == env,
            r.rust_flags == self.rust_flags,
            r.z_flags == self.z_flags,
            r.cc_compiler == self.cc_compiler,
            r.c_flags == self.c_flags,
            r.custom_args == self.custom_args,
    {
        GuestBuilder { custom_env: env, ..self }
    }

    /// Splices the configured raw arguments and extra environment pairs
    /// into an invocation under assembly.
    pub fn extend_custom(&self, args: &mut Vec<String>, env_set: &mut Vec<(String, String)>)
        ensures
            final(args)@ == old(args)@ + self.custom_args@,
            final(env_set)@ == old(env_set)@ + self.custom_env@,
    {
        append_string_clones(args, &self.custom_args);
        append_pair_clones(env_set, &self.custom_env);
    }

    /// The names to remove from the child's environment: with
    /// `filter_cargo`, every ambient name carrying the build tool's
    /// prefix, and always the explicitly listed ones.
    pub fn sanitize(&self, ambient_names: &Vec<String>, filter_cargo: bool) -> (r: Vec<String>)
        ensures
            r@ == (if filter_cargo {
                ambient_names@.filter(cargo_name_pred())
            } else {
                Seq::<String>::empty()
            }) + self.sanitized_env@,
    {
        let mut r: Vec<String> = if filter_cargo {
            filter_cargo_names(ambient_names)
        } else {
            Vec::new()
        };
        append_string_clones(&mut r, &self.sanitized_env);
        r
    }
}

pub open spec fn opt_vec_views(o: Option<Vec<String>>) -> Option<Seq<Seq<char>>> {
    match o {
        Option::Some(v) => Option::Some(str_views(v@)),
        Option::None => Option::None,
    }
}

pub open spec fn opt_ref_views(o: Option<&Vec<String>>) -> Option<Seq<Seq<char>>> {
    match o {
        Option::Some(v) => Option::Some(str_views(v@)),
        Option::None => Option::None,
    }
}

/// The argument list the assembler produces: the base subcommand, the
/// cross-compilation target, the lock-file flag, the profile flag, the
/// requested binary filters, the unstable options, and the raw extras,
/// in that order.
pub open spec fn inner_args_spec(
    b: GuestBuilder,
    base: Seq<Seq<char>>,
    profile: Profile,
    bins: Option<Seq<Seq<char>>>,
) -> Seq<Seq<char>> {
    base + seq!["--target"@, b.target@, "--locked"@] + (match profile {
        Profile::Release => seq!["--release"@],
        Profile::Debug => Seq::<Seq<char>>::empty(),
    }) + (match bins {
        Option::Some(bs) => interleave_flag("--bin"@, bs),
        Option::None => Seq::<Seq<char>>::empty(),
    }) + (match b.z_flags {
        Option::Some(zf) => interleave_flag("-Z"@, str_views(zf@)),
        Option::None => Seq::<Seq<char>>::empty(),
    }) + str_views(b.custom_args@)
}

/// The environment pairs the assembler sets for the child: the compiler
/// path, the encoded compiler flags, the cross C compiler and its
/// per-target flags where configured, and the extra pairs, in that
/// order.
pub open spec fn env_set_spec(b: GuestBuilder) -> Seq<(Seq<char>, Seq<char>)> {
    seq![("RUSTC"@, b.rustc_compiler@)] + (match b.rust_flags {
        Option::Some(rf) => seq![
            (
                "CARGO_ENCODED_RUSTFLAGS"@,
                join_with(interleave_flag("-C"@, str_views(rf@)), flag_sep()),
            ),
        ],
        Option::None => Seq::<(Seq<char>, Seq<char>)>::empty(),
    }) + (match b.cc_compiler {
        Option::Some(cc) => seq![("CC"@, cc@)],
        Option::None => Seq::<(Seq<char>, Seq<char>)>::empty(),
    }) + (match b.c_flags {
        Option::Some(cf) => seq![("CFLAGS_"@ + b.target@, join_with(str_views(cf@), ' '))],
        Option::None => Seq::<(Seq<char>, Seq<char>)>::empty(),
    }) + pair_views(b.custom_env@)
}

/// The names the assembler removes from the child's environment: every
/// ambient name carrying the build tool's prefix, the toolchain
/// override, and the explicitly listed names.  The prefix rule is not
/// optional: the nested build targets a foreign toolchain and ambient
/// configuration would corrupt it.
pub open spec fn env_remove_spec(b: GuestBuilder, ambient_names: Seq<String>) -> Seq<Seq<char>> {
    str_views(ambient_names.filter(cargo_name_pred())) + seq!["RUSTUP_TOOLCHAIN"@] + str_views(
        b.sanitized_env@,
    )
}

/// Alike in everything the sanitised-name list leaves alone.
pub open spec fn same_core_except_sanitized(a: GuestBuilder, b: GuestBuilder) -> bool {
    &&& a.meta == b.meta
    &&& a.target == b.target
    &&& a.cargo == b.cargo
    &&& a.rustc_compiler == b.rustc_compiler
    &&& a.rust_flags == b.rust_flags
    &&& a.z_flags == b.z_flags
    &&& a.cc_compiler == b.cc_compiler
    &&& a.c_flags == b.c_flags
    &&& a.custom_args == b.custom_args
    &&& a.custom_env == b.custom_env
}

/// Keeps a declared target when no filter is given, or when the filter
/// lists its name.
pub open spec fn keep_pred(filt: Option<Seq<Seq<char>>>) -> spec_fn(Target) -> bool {
    |t: Target| match filt {
        Option::Some(f) => f.contains(t.name@),
        Option::None => true,
    }
}

/// The profile directory under the build-output tree, with the `deps`
/// level below it for content-hashed test binaries.
pub open spec fn build_base_spec(
    meta: Metadata,
    target: Seq<char>,
    profile: Profile,
    deps: bool,
) -> Seq<char> {
    let p = path_join_spec(
        path_join_spec(meta.target_directory@, target),
        profile.dir_name_spec(),
    );
    if deps {
        path_join_spec(p, "deps"@)
    } else {
        p
    }
}

/// The declared artifacts of one kind that pass the name filter, each
/// joined under the base directory.
pub open spec fn artifact_paths_spec(
    meta: Metadata,
    kind: TargetKind,
    filt: Option<Seq<Seq<char>>>,
    base: Seq<char>,
) -> Seq<Seq<char>> {
    meta.of_kind(kind).filter(keep_pred(filt)).map_values(
        |t: Target| path_join_spec(base, t.name@),
    )
}

fn contains_name(bs: &Vec<String>, n: &str) -> (r: bool)
    ensures
        r == str_views(bs@).contains(n@),
{
    let mut i: usize = 0;
    while i < bs.len()
        invariant
            i <= bs@.len(),
            forall|j: int| 0 <= j < i ==> #[trigger] bs@[j]@ != n@,
        decreases bs@.len() - i,
    {
        if str_eq(bs[i].as_str(), n) {
            proof {
                assert(str_views(bs@)[i as int] == n@);
            }
            return true;
        }
        i += 1;
    }
    proof {
        if str_views(bs@).contains(n@) {
            let j = choose|j: int| 0 <= j < str_views(bs@).len() && str_views(bs@)[j] == n@;
            assert(bs@[j]@ == n@);
        }
    }
    false
}

impl GuestBuilder {
    /// One assembled invocation: the toolchain-specific build tool run
    /// from the workspace root with the assembled arguments, a cleaned
    /// environment, and the configured overrides set.  The ambient
    /// variable names are an external input to filter, never
    /// configuration to trust.
    pub fn inner_command(
        &self,
        args: Vec<String>,
        profile: Profile,
        bins: Option<&Vec<String>>,
        ambient_names: &Vec<String>,
    ) -> (r: ProcessInvocation)
        ensures
            r.program == self.cargo,
            str_views(r.args@) == inner_args_spec(*self, str_views(args@), profile, opt_ref_views(bins)),
            r.current_dir@ == parent_dir_spec(self.meta.target_directory@),
            str_views(r.env_remove@) == env_remove_spec(*self, ambient_names@),
            pair_views(r.env_set@) == env_set_spec(*self),
    {
        let ghost base = str_views(args@);
        let mut args = args;
        args.push(String::from_str("--target"));
        args.push(self.target.clone());
        args.push(String::from_str("--locked"));
        proof {
            assert(str_views(args@) =~= base + seq!["--target"@, self.target@, "--locked"@]);
        }
        let ghost s1 = str_views(args@);
        if profile == Profile::Release {
            args.push(String::from_str("--release"));
            proof {
                assert(str_views(args@) =~= s1 + seq!["--release"@]);
            }
        } else {
            proof {
                assert(str_views(args@) =~= s1 + Seq::<Seq<char>>::empty());
            }
        }
        let ghost s2 = str_views(args@);
        match bins {
            Option::Some(bs) => {
                let mut ff = format_flags("--bin", bs);
                let ghost ffv = str_views(ff@);
                args.append(&mut ff);
                proof {
                    assert(str_views(args@) =~= s2 + ffv);
                }
            },
            Option::None => {
                proof {
                    assert(str_views(args@) =~= s2 + Seq::<Seq<char>>::empty());
                }
            },
        }
        let ghost s3 = str_views(args@);
        match &self.z_flags {
            Option::Some(zf) => {
                let mut ff = format_flags("-Z", zf);
                let ghost ffv = str_views(ff@);
                args.append(&mut ff);
                proof {
                    assert(str_views(args@) =~= s3 + ffv);
                }
            },
            Option::None => {
                proof {
                    assert(str_views(args@) =~= s3 + Seq::<Seq<char>>::empty());
                }
            },
        }
        let ghost s4 = str_views(args@);
        append_string_clones(&mut args, &self.custom_args);
        proof {
            assert(str_views(args@) =~= s4 + str_views(self.custom_args@));
        }
        let mut removals = filter_cargo_names(ambient_names);
        let ghost r0 = str_views(removals@);
        removals.push(String::from_str("RUSTUP_TOOLCHAIN"));
        proof {
            assert(str_views(removals@) =~= r0 + seq!["RUSTUP_TOOLCHAIN"@]);
        }
        let ghost r1 = str_views(removals@);
        append_string_clones(&mut removals, &self.sanitized_env);
        proof {
            assert(str_views(removals@) =~= r1 + str_views(self.sanitized_env@));
        }
        let mut env_set: Vec<(String, String)> = Vec::new();
        env_set.push((String::from_str("RUSTC"), self.rustc_compiler.clone()));
        proof {
            assert(pair_views(env_set@) =~= seq![("RUSTC"@, self.rustc_compiler@)]);
        }
        let ghost e1 = pair_views(env_set@);
        match &self.rust_flags {
            Option::Some(rf) => {
                let ff = format_flags("-C", rf);
                let joined = crate::sep::join_str(&ff, '\x1f');
                env_set.push((String::from_str("CARGO_ENCODED_RUSTFLAGS"), joined));
                proof {
                    assert(str_views(ff@) == interleave_flag("-C"@, str_views(rf@)));
                    assert(pair_views(env_set@) =~= e1 + seq![
                        (
                            "CARGO_ENCODED_RUSTFLAGS"@,
                            join_with(interleave_flag("-C"@, str_views(rf@)), flag_sep()),
                        ),
                    ]);
                }
            },
            Option::None => {
                proof {
                    assert(pair_views(env_set@) =~= e1 + Seq::<(Seq<char>, Seq<char>)>::empty());
                }
            },
        }
        let ghost e2 = pair_views(env_set@);
        match &self.cc_compiler {
            Option::Some(cc) => {
                env_set.push((String::from_str("CC"), cc.clone()));
                proof {
                    assert(pair_views(env_set@) =~= e2 + seq![("CC"@, self.cc_compiler->Some_0@)]);
                }
            },
            Option::None => {
                proof {
                    assert(pair_views(env_set@) =~= e2 + Seq::<(Seq<char>, Seq<char>)>::empty());
                }
            },
        }
        let ghost e3 = pair_views(env_set@);
        match &self.c_flags {
            Option::Some(cf) => {
                let joined = crate::sep::join_str(cf, ' ');
                let key = String::from_str("CFLAGS_").concat(self.target.as_str());
                env_set.push((key, joined));
                proof {
                    assert(pair_views(env_set@) =~= e3 + seq![
                        ("CFLAGS_"@ + self.target@, join_with(str_views(cf@), ' ')),
                    ]);
                }
            },
            Option::None => {
                proof {
                    assert(pair_views(env_set@) =~= e3 + Seq::<(Seq<char>, Seq<char>)>::empty());
                }
            },
        }
        let ghost e4 = pair_views(env_set@);
        append_pair_clones(&mut env_set, &self.custom_env);
        proof {
            assert(pair_views(env_set@) =~= e4 + pair_views(self.custom_env@));
        }
        ProcessInvocation {
            program: self.cargo.clone(),
            args,
            current_dir: parent_dir(self.meta.target_directory.as_str()),
            env_remove: removals,
            env_set,
        }
    }

    /// A plain build of the declared binaries: their output paths are
    /// deterministic, one per kept binary target under the profile
    /// directory.
    pub fn build_command(
        &self,
        profile: Profile,
        bins: Option<&Vec<String>>,
        ambient_names: &Vec<String>,
    ) -> (r: Executor)
        ensures
            r.cmd.program == self.cargo,
            str_views(r.cmd.args@) == inner_args_spec(
                *self,
                seq!["build"@],
                profile,
                opt_ref_views(bins),
            ),
            r.cmd.current_dir@ == parent_dir_spec(self.meta.target_directory@),
            str_views(r.cmd.env_remove@) == env_remove_spec(*self, ambient_names@),
            pair_views(r.cmd.env_set@) == env_set_spec(*self),
            r.test == false,
            str_views(r.artifacts@) == artifact_paths_spec(
                self.meta,
                TargetKind::Binary,
                opt_ref_views(bins),
                build_base_spec(self.meta, self.target@, profile, false),
            ),
    {
        let mut base_args: Vec<String> = Vec::new();
        base_args.push(String::from_str("build"));
        proof {
            assert(str_views(base_args@) =~= seq!["build"@]);
        }
        let cmd = self.inner_command(base_args, profile, bins, ambient_names);
        let targets = self.meta.bins();
        let arts = self.artifact_paths(&targets, profile, bins, false, TargetKind::Binary);
        Executor { cmd, artifacts: arts, test: false }
    }

    /// A test build without running: the produced binaries carry
    /// content-hashed names, so the declared paths are hypothetical
    /// until discovery resolves them.
    pub fn test_command(
        &self,
        profile: Profile,
        bins: Option<&Vec<String>>,
        ambient_names: &Vec<String>,
    ) -> (r: Executor)
        ensures
            r.cmd.program == self.cargo,
            str_views(r.cmd.args@) == inner_args_spec(
                *self,
                seq!["test"@, "--no-run"@],
                profile,
                opt_ref_views(bins),
            ),
            r.cmd.current_dir@ == parent_dir_spec(self.meta.target_directory@),
            str_views(r.cmd.env_remove@) == env_remove_spec(*self, ambient_names@),
            pair_views(r.cmd.env_set@) == env_set_spec(*self),
            r.test == true,
            str_views(r.artifacts@) == artifact_paths_spec(
                self.meta,
                TargetKind::Test,
                opt_ref_views(bins),
                build_base_spec(self.meta, self.target@, profile, true),
            ),
    {
        let mut base_args: Vec<String> = Vec::new();
        base_args.push(String::from_str("test"));
        base_args.push(String::from_str("--no-run"));
        proof {
            assert(str_views(base_args@) =~= seq!["test"@, "--no-run"@]);
        }
        let cmd = self.inner_command(base_args, profile, bins, ambient_names);
        let targets = self.meta.tests();
        let arts = self.artifact_paths(&targets, profile, bins, true, TargetKind::Test);
        Executor { cmd, artifacts: arts, test: true }
    }

    fn artifact_paths(
        &self,
        targets: &Vec<Target>,
        profile: Profile,
        bins: Option<&Vec<String>>,
        deps: bool,
        kind: TargetKind,
    ) -> (r: Vec<String>)
        requires
            targets@ == self.meta.of_kind(kind),
        ensures
            str_views(r@) == artifact_paths_spec(
                self.meta,
                kind,
                opt_ref_views(bins),
                build_base_spec(self.meta, self.target@, profile, deps),
            ),
    {
        let ghost filt = opt_ref_views(bins);
        let ghost pred = keep_pred(filt);
        let base0 = path_join(
            path_join(self.meta.target_directory.as_str(), self.target.as_str()).as_str(),
            profile.dir_name(),
        );
        let base = if deps {
            path_join(base0.as_str(), "deps")
        } else {
            base0
        };
        let ghost bview = build_base_spec(self.meta, self.target@, profile, deps);
        proof {
            assert(base@ == bview);
        }
        let ghost mapper = |t: Target| path_join_spec(bview, t.name@);
        let mut r: Vec<String> = Vec::new();
        let mut i: usize = 0;
        proof {
            assert(targets@.subrange(0, 0) =~= Seq::<Target>::empty());
            assert(Seq::<Target>::empty().filter(pred) =~= Seq::<Target>::empty());
            assert(str_views(r@) =~= Seq::<Target>::empty().filter(pred).map_values(mapper));
        }
        while i < targets.len()
            invariant
                i <= targets@.len(),
                pred == keep_pred(filt),
                filt == opt_ref_views(bins),
                mapper == (|t: Target| path_join_spec(bview, t.name@)),
                base@ == bview,
                str_views(r@) == targets@.subrange(0, i as int).filter(pred).map_values(mapper),
            decreases targets@.len() - i,
        {
            proof {
                let pre = targets@.subrange(0, i as int);
                pre.lemma_filter_push(targets@[i as int], pred);
                assert(targets@.subrange(0, i + 1) =~= pre.push(targets@[i as int]));
            }
            let t = &targets[i];
            let keep = match bins {
                Option::Some(bs) => contains_name(bs, t.name.as_str()),
                Option::None => true,
            };
            if keep {
                let p = path_join(base.as_str(), t.name.as_str());
                proof {
                    let pre = targets@.subrange(0, i as int);
                    assert(p@ == mapper(targets@[i as int]));
                    assert(str_views(r@.push(p)) =~= pre.filter(pred).map_values(mapper).push(
                        mapper(targets@[i as int]),
                    ));
                    assert(pre.filter(pred).map_values(mapper).push(mapper(targets@[i as int]))
                        =~= pre.filter(pred).push(targets@[i as int]).map_values(mapper));
                }
                r.push(p);
            }
            i += 1;
        }
        proof {
            assert(targets@.subrange(0, targets@.len() as int) =~= targets@);
        }
        r
    }
}

/// An invocation of the given tool with the ambient build-tool
/// configuration and the toolchain override stripped from its
/// environment.
pub fn sanitized_cmd(tool: &str, ambient_names: &Vec<String>) -> (r: ProcessInvocation)
    ensures
        r.program@ == tool@,
        r.args@ == Seq::<String>::empty(),
        r.current_dir@ == Seq::<char>::empty(),
        str_views(r.env_remove@) == str_views(ambient_names@.filter(cargo_name_pred())) + seq![
            "RUSTUP_TOOLCHAIN"@,
        ],
        r.env_set@ == Seq::<(String, String)>::empty(),
{
    let mut removals = filter_cargo_names(ambient_names);
    let ghost r0 = str_views(removals@);
    removals.push(String::from_str("RUSTUP_TOOLCHAIN"));
    proof {
        assert(str_views(removals@) =~= r0 + seq!["RUSTUP_TOOLCHAIN"@]);
    }
    ProcessInvocation {
        program: String::from_str(tool),
        args: Vec::new(),
        current_dir: String::new(),
        env_remove: removals,
        env_set: Vec::new(),
    }
}

/// The toolchain query that resolves one tool's path: the toolchain
/// selector's own binary asked, in a sanitized environment, which tool
/// the requested toolchain would use.
pub fn rustup_which_invocation(toolchain: &str, tool: &str, ambient_names: &Vec<String>) -> (r:
    ProcessInvocation)
    ensures
        r.program@ == "rustup"@,
        str_views(r.args@) == seq!["+"@ + toolchain@, "which"@, tool@],
        r.current_dir@ == Seq::<char>::empty(),
        str_views(r.env_remove@) == str_views(ambient_names@.filter(cargo_name_pred())) + seq![
            "RUSTUP_TOOLCHAIN"@,
        ],
        r.env_set@ == Seq::<(String, String)>::empty(),
{
    let mut inv = sanitized_cmd("rustup", ambient_names);
    let mut args: Vec<String> = Vec::new();
    args.push(String::from_str("+").concat(toolchain));
    args.push(String::from_str("which"));
    args.push(String::from_str(tool));
    proof {
        assert(str_views(args@) =~= seq!["+"@ + toolchain@, "which"@, tool@]);
    }
    inv.args = args;
    inv
}

} // verus!
