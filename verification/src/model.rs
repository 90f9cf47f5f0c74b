//! The library's own picture of a workspace: declared build targets
//! partitioned by kind, and the workspace's build-output directory.
//! The unverified front end fills this in from the project metadata
//! reader and hands it over as plain values.

use vstd::prelude::*;

verus! {

#[derive(Clone, Copy, PartialEq, Eq, Structural, Debug)]
pub enum TargetKind {
    Binary,
    Library,
    Test,
    Example,
    Benchmark,
    BuildScript,
}

/// One declared build unit.  A workspace may hold many, possibly with
/// duplicate names across different kinds.
#[derive(Debug)]
pub struct Target {
    pub name: String,
    pub kind: TargetKind,
}

impl Clone for Target {
    fn clone(&self) -> (r: Self)
        ensures
            r == *self,
    {
        Target { name: self.name.clone(), kind: self.kind }
    }
}

/// Declared-target feed plus the build-output directory, read once per
/// build and never re-queried mid-run.
#[derive(Debug)]
pub struct Metadata {
    pub targets: Vec<Target>,
    pub target_directory: String,
}

impl Clone for Metadata {
    fn clone(&self) -> (r: Self)
        ensures
            r.targets@ == self.targets@,
            r.target_directory == self.target_directory,
    {
        let ts = self.targets.clone();
        proof {
            assert(ts@ =~= self.targets@);
        }
        Metadata { targets: ts, target_directory: self.target_directory.clone() }
    }
}

/// Guest-method declarations read from a package's metadata table.
#[derive(Debug)]
pub struct Risc0Metadata {
    pub methods: Vec<String>,
}

impl Clone for Risc0Metadata {
    fn clone(&self) -> (r: Self)
        ensures
            r.methods@ == self.methods@,
    {
        let ms = self.methods.clone();
        proof {
            assert(ms@ =~= self.methods@);
        }
        Risc0Metadata { methods: ms }
    }
}

pub open spec fn kind_pred(k: TargetKind) -> spec_fn(Target) -> bool {
    |t: Target| t.kind == k
}

impl Metadata {
    /// The declared targets of one kind, in declaration order.
    pub open spec fn of_kind(self, k: TargetKind) -> Seq<Target> {
        self.targets@.filter(kind_pred(k))
    }

    pub fn targets_of_kind(&self, k: TargetKind) -> (r: Vec<Target>)
        ensures
            r@ == self.of_kind(k),
    {
        let mut r: Vec<Target> = Vec::new();
        let mut i: usize = 0;
        proof {
            assert(self.targets@.subrange(0, 0) =~= Seq::<Target>::empty());
            assert(Seq::<Target>::empty().filter(kind_pred(k)) =~= Seq::<Target>::empty());
        }
        while i < self.targets.len()
            invariant
                i <= self.targets@.len(),
                r@ == self.targets@.subrange(0, i as int).filter(kind_pred(k)),
            decreases self.targets@.len() - i,
        {
            proof {
                let pre = self.targets@.subrange(0, i as int);
                let elem = self.targets@[i as int];
                pre.lemma_filter_push(elem, kind_pred(k));
                assert(self.targets@.subrange(0, i + 1) =~= pre.push(elem));
            }
            let t = &self.targets[i];
            if t.kind == k {
                r.push(t.clone());
            }
            i += 1;
        }
        proof {
            assert(self.targets@.subrange(0, self.targets@.len() as int) =~= self.targets@);
        }
        r
    }

    pub fn tests(&self) -> (r: Vec<Target>)
        ensures
            r@ == self.of_kind(TargetKind::Test),
    {
        self.targets_of_kind(TargetKind::Test)
    }

    pub fn bins(&self) -> (r: Vec<Target>)
        ensures
            r@ == self.of_kind(TargetKind::Binary),
    {
        self.targets_of_kind(TargetKind::Binary)
    }

    pub fn examples(&self) -> (r: Vec<Target>)
        ensures
            r@ == self.of_kind(TargetKind::Example),
    {
        self.targets_of_kind(TargetKind::Example)
    }

    pub fn benchs(&self) -> (r: Vec<Target>)
        ensures
            r@ == self.of_kind(TargetKind::Benchmark),
    {
        self.targets_of_kind(TargetKind::Benchmark)
    }

    pub fn libs(&self) -> (r: Vec<Target>)
        ensures
            r@ == self.of_kind(TargetKind::Library),
    {
        self.targets_of_kind(TargetKind::Library)
    }

    pub fn build_scripts(&self) -> (r: Vec<Target>)
        ensures
            r@ == self.of_kind(TargetKind::BuildScript),
    {
        self.targets_of_kind(TargetKind::BuildScript)
    }
}

} // verus!
