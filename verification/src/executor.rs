//! One build run: the assembled invocation, the artifacts it is declared
//! to produce, and the pure conclusion drawn from the child's exit and
//! the candidates discovered in its diagnostic output.  Spawning the
//! child and draining its streams happen outside; this module owns every
//! decision those tasks feed.

use vstd::prelude::*;

use crate::builder::ProcessInvocation;
use crate::entry::{codegen_spec, GuestListEntry};
use crate::errors::BuildError;
use crate::resolve::{
    greedy_assign, is_length_order, resolve, resolve_post, unused_row,
};
use crate::text::{file_name, file_name_spec, pair_views, path_join, path_join_spec, str_views};

verus! {

/// The executor's state for one run.  In a test build the artifact paths
/// are hypothetical until the content-hashed names are discovered.
#[derive(Debug)]
pub struct Executor {
    pub cmd: ProcessInvocation,
    pub artifacts: Vec<String>,
    pub test: bool,
}

/// The declared names the resolver matches against: the file name of
/// each declared artifact path.
pub open spec fn declared_names_spec(arts: Seq<String>) -> Seq<Seq<char>> {
    arts.map_values(|s: String| file_name_spec(s@))
}

/// The exit code propagated when the child fails: its own code when the
/// platform reports one, else a generic failure code.
pub open spec fn exit_code_of(exit_code: Option<i32>) -> i32 {
    match exit_code {
        Option::Some(c) => c,
        Option::None => 1,
    }
}

/// What concluding a test build returns, pinned to the resolver's
/// greedy specification: the candidate paths consumed for the declared
/// names, or the first name that found none.
pub open spec fn conclude_post(
    dn: Seq<Seq<char>>,
    dc: Seq<Seq<char>>,
    r: Result<Vec<String>, BuildError>,
    order: Seq<int>,
) -> bool {
    match greedy_assign(dn, order, dc, unused_row(dc.len() as int), 0) {
        Result::Ok(m) => match r {
            Result::Ok(v) => v@.len() == dn.len() && (forall|i: int|
                0 <= i < dn.len() ==> m.contains_key(i) && ((#[trigger] v@[i])@ == dc[m[i]])),
            Result::Err(_) => false,
        },
        Result::Err(e) => match r {
            Result::Err(be) => match be {
                BuildError::ArtifactNotFound(nm) => 0 <= e < dn.len() && nm@ == dn[e],
                _ => false,
            },
            Result::Ok(_) => false,
        },
    }
}

/// The name a placed artifact is stored under: its file name, prefixed
/// when it is a test binary so the normal and test variants of one base
/// name cannot collide.
pub open spec fn label_spec(test: bool, file: Seq<char>) -> Seq<char> {
    if test {
        "test-"@ + file
    } else {
        file
    }
}

pub fn artifact_label(test: bool, file: &str) -> (r: String)
    ensures
        r@ == label_spec(test, file@),
{
    if test {
        let r = String::from_str("test-").concat(file);
        r
    } else {
        String::from_str(file)
    }
}

/// The copy plan for placed binaries: each resolved path, joined under
/// the workspace parent, copied to the canonical output directory under
/// its label.
pub open spec fn copy_plan_spec(arts: Seq<Seq<char>>, parent: Seq<char>, test: bool) -> Seq<
    (Seq<char>, Seq<char>),
> {
    arts.map_values(
        |p: Seq<char>|
            (
                path_join_spec(parent, p),
                path_join_spec(path_join_spec(parent, "elf"@), label_spec(test, file_name_spec(p))),
            ),
    )
}

impl Executor {
    /// The run's conclusion, drawn from the child's exit and the
    /// discovered candidates.  A failing child propagates its own exit
    /// code; a plain build keeps its deterministic paths; a test build
    /// with no discoveries fails loudly; otherwise the declared names
    /// are resolved against the discovered paths.
    pub fn conclude(&self, exit_ok: bool, exit_code: Option<i32>, candidates: &Vec<String>) -> (r:
        Result<Vec<String>, BuildError>)
        ensures
            !exit_ok ==> (r matches Result::Err(e) && e matches BuildError::ChildExecutionFailure(c)
                && c == exit_code_of(exit_code)),
            exit_ok && !self.test ==> (r matches Result::Ok(v) && v@ == self.artifacts@),
            exit_ok && self.test && candidates@.len() == 0 ==> (r matches Result::Err(e)
                && e matches BuildError::NoArtifactsDiscovered),
            exit_ok && self.test && candidates@.len() > 0 ==> (exists|order: Seq<int>|
                #[trigger] is_length_order(declared_names_spec(self.artifacts@), order)
                    && conclude_post(
                    declared_names_spec(self.artifacts@),
                    str_views(candidates@),
                    r,
                    order,
                )),
    {
        if !exit_ok {
            let code: i32 = match exit_code {
                Option::Some(c) => c,
                Option::None => 1,
            };
            return Result::Err(BuildError::ChildExecutionFailure(code));
        }
        if !self.test {
            let mut out: Vec<String> = Vec::new();
            let mut i: usize = 0;
            while i < self.artifacts.len()
                invariant
                    i <= self.artifacts@.len(),
                    out@.len() == i,
                    forall|j: int| 0 <= j < i ==> out@[j] == self.artifacts@[j],
                decreases self.artifacts@.len() - i,
            {
                out.push(self.artifacts[i].clone());
                i += 1;
            }
            proof {
                assert(out@ =~= self.artifacts@);
            }
            return Result::Ok(out);
        }
        if candidates.len() == 0 {
            return Result::Err(BuildError::NoArtifactsDiscovered);
        }
        let ghost dn = declared_names_spec(self.artifacts@);
        let ghost dc = str_views(candidates@);
        let mut names: Vec<String> = Vec::new();
        let mut i: usize = 0;
        while i < self.artifacts.len()
            invariant
                i <= self.artifacts@.len(),
                names@.len() == i,
                forall|j: int| 0 <= j < i ==> (#[trigger] names@[j])@ == file_name_spec(
                    self.artifacts@[j]@,
                ),
            decreases self.artifacts@.len() - i,
        {
            names.push(file_name(self.artifacts[i].as_str()));
            i += 1;
        }
        proof {
            assert(str_views(names@) =~= dn);
        }
        match resolve(&names, candidates) {
            Result::Ok(idx) => {
                let mut out: Vec<String> = Vec::new();
                let mut j: usize = 0;
                while j < idx.len()
                    invariant
                        j <= idx@.len(),
                        out@.len() == j,
                        forall|k: int| 0 <= k < idx@.len() ==> (#[trigger] idx@[k]) < candidates@.len(),
                        forall|k: int| 0 <= k < j ==> (#[trigger] out@[k]) == candidates@[idx@[k] as int],
                    decreases idx@.len() - j,
                {
                    out.push(candidates[idx[j]].clone());
                    j += 1;
                }
                proof {
                    let order = choose|order: Seq<int>|
                        #[trigger] is_length_order(dn, order) && resolve_post(
                            dn,
                            dc,
                            Result::Ok::<Vec<usize>, BuildError>(idx),
                            order,
                        );
                    assert(conclude_post(
                        dn,
                        dc,
                        Result::Ok::<Vec<String>, BuildError>(out),
                        order,
                    )) by {
                        match greedy_assign(dn, order, dc, unused_row(dc.len() as int), 0) {
                            Result::Ok(m) => {
                                assert forall|k: int| 0 <= k < dn.len() implies #[trigger] m.contains_key(
                                    k,
                                ) && ((out@[k])@ == dc[m[k]]) by {
                                    assert(idx@[k] as int == m[k]);
                                    assert(out@[k] == candidates@[idx@[k] as int]);
                                }
                            },
                            Result::Err(_) => {
                                assert(false);
                            },
                        }
                    }
                }
                Result::Ok(out)
            },
            Result::Err(e) => {
                proof {
                    let order = choose|order: Seq<int>|
                        #[trigger] is_length_order(dn, order) && resolve_post(
                            dn,
                            dc,
                            Result::Err::<Vec<usize>, BuildError>(e),
                            order,
                        );
                    assert(conclude_post(dn, dc, Result::Err::<Vec<String>, BuildError>(e), order));
                }
                Result::Err(e)
            },
        }
    }

    /// The copy plan for the resolved binaries of this run.
    pub fn sp1_placement(&self, resolved: &Vec<String>, target_parent: &str) -> (r: Vec<
        (String, String),
    >)
        ensures
            pair_views(r@) == copy_plan_spec(str_views(resolved@), target_parent@, self.test),
    {
        let mut r: Vec<(String, String)> = Vec::new();
        let mut i: usize = 0;
        while i < resolved.len()
            invariant
                i <= resolved@.len(),
                r@.len() == i,
                forall|j: int| 0 <= j < i ==> (#[trigger] r@[j]).0@ == path_join_spec(
                    target_parent@,
                    resolved@[j]@,
                ) && r@[j].1@ == path_join_spec(
                    path_join_spec(target_parent@, "elf"@),
                    label_spec(self.test, file_name_spec(resolved@[j]@)),
                ),
            decreases resolved@.len() - i,
        {
            let src = path_join(target_parent, resolved[i].as_str());
            let fname = file_name(resolved[i].as_str());
            let label = artifact_label(self.test, fname.as_str());
            let dest_dir = path_join(target_parent, "elf");
            let dest = path_join(dest_dir.as_str(), label.as_str());
            r.push((src, dest));
            i += 1;
        }
        proof {
            assert(pair_views(r@) =~= copy_plan_spec(
                str_views(resolved@),
                target_parent@,
                self.test,
            ));
        }
        r
    }

    /// The generated source unit for the given entries: each entry's
    /// constants back to back, in input order.  One unsafe path rejects
    /// the whole unit, so nothing partial is ever written.
    pub fn risc0_placement(&self, entries: &Vec<GuestListEntry>) -> (r: Result<String, BuildError>)
        ensures
            entries_safe(entries@) ==> (r matches Result::Ok(s) && s@ == codegen_all_spec(
                entries@,
            )),
            !entries_safe(entries@) ==> (r matches Result::Err(e) && e matches
                BuildError::UnsafePathRejected),
    {
        let mut out = String::new();
        let mut i: usize = 0;
        proof {
            assert(out@ =~= codegen_all_spec(entries@.subrange(0, 0)));
        }
        while i < entries.len()
            invariant
                i <= entries@.len(),
                out@ == codegen_all_spec(entries@.subrange(0, i as int)),
                forall|j: int| 0 <= j < i ==> !(#[trigger] entries@[j]).path@.contains('#'),
            decreases entries@.len() - i,
        {
            let piece = match entries[i].codegen_consts() {
                Result::Ok(s) => s,
                Result::Err(_) => {
                    proof {
                        assert(entries@[i as int].path@.contains('#'));
                        assert(!entries_safe(entries@));
                    }
                    return Result::Err(BuildError::UnsafePathRejected);
                },
            };
            proof {
                let pre = entries@.subrange(0, i as int);
                assert(entries@.subrange(0, i + 1) =~= pre.push(entries@[i as int]));
                assert(pre.push(entries@[i as int]).drop_last() =~= pre);
            }
            out.append(piece.as_str());
            i += 1;
        }
        proof {
            assert(entries@.subrange(0, entries@.len() as int) =~= entries@);
        }
        Result::Ok(out)
    }
}

/// No entry's path holds the delimiter that would break the generated
/// raw string literal.
pub open spec fn entries_safe(entries: Seq<GuestListEntry>) -> bool {
    forall|i: int| 0 <= i < entries.len() ==> !(#[trigger] entries[i]).path@.contains('#')
}

/// The generated source unit: each entry's constants, in input order.
pub open spec fn codegen_all_spec(entries: Seq<GuestListEntry>) -> Seq<char>
    decreases entries.len(),
{
    if entries.len() == 0 {
        Seq::empty()
    } else {
        codegen_all_spec(entries.drop_last()) + codegen_spec(
            entries.last().name@,
            entries.last().elf@,
            entries.last().image_id@,
            entries.last().path@,
        )
    }
}

} // verus!
