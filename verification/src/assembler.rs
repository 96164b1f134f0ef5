//! The capability assembler and instance build order. Host capabilities
//! register their importable functions into one linking namespace keyed by
//! (module-name, import-name); a key registered twice is a defect and is
//! detected defensively. Capabilities run start-up code when attached, so
//! the build order — system interface first, then outbound HTTP, then
//! instantiation — is an invariant of the build, not a preference.

use vstd::prelude::*;

verus! {

/// A second registration of a (module-name, import-name) key the namespace
/// already holds.
#[derive(Debug)]
pub struct DuplicateImportError {
    pub module: String,
    pub name: String,
}

pub open spec fn import_views(ks: Seq<(String, String)>) -> Seq<(Seq<char>, Seq<char>)> {
    ks.map_values(|k: (String, String)| (k.0@, k.1@))
}

/// The linking namespace: the import keys registered so far, in
/// registration order, each at most once.
pub struct CapabilityNamespace {
    pub keys: Vec<(String, String)>,
}

impl CapabilityNamespace {
    pub open spec fn key_views(self) -> Seq<(Seq<char>, Seq<char>)> {
        import_views(self.keys@)
    }

    pub open spec fn holds(self, k: (Seq<char>, Seq<char>)) -> bool {
        self.key_views().contains(k)
    }

    /// No key is registered twice.
    pub open spec fn wf(self) -> bool {
        forall|i: int, j: int|
            0 <= i < j < self.key_views().len() ==> self.key_views()[i] != self.key_views()[j]
    }

    /// A batch of keys can go in: none is already held, and no two of them
    /// are the same.
    pub open spec fn addable(self, ks: Seq<(Seq<char>, Seq<char>)>) -> bool {
        &&& forall|i: int| 0 <= i < ks.len() ==> !self.holds(#[trigger] ks[i])
        &&& forall|i: int, j: int| 0 <= i < j < ks.len() ==> ks[i] != ks[j]
    }

    pub fn new() -> (ns: Self)
        ensures
            ns.key_views() == Seq::<(Seq<char>, Seq<char>)>::empty(),
            ns.wf(),
    {
        let ns = CapabilityNamespace { keys: Vec::new() };
        proof {
            assert(ns.key_views() =~= Seq::<(Seq<char>, Seq<char>)>::empty());
        }
        ns
    }

    /// Whether the namespace already holds the key.
    pub fn holds_key(&self, module: &String, name: &String) -> (r: bool)
        ensures
            r == self.holds((module@, name@)),
    {
        let n = self.keys.len();
        let mut i: usize = 0;
        while i < n
            invariant
                i <= n,
                n == self.keys@.len(),
                forall|j: int| 0 <= j < i ==> self.key_views()[j] != (module@, name@),
            decreases n - i,
        {
            if self.keys[i].0.eq(module) && self.keys[i].1.eq(name) {
                assert(self.key_views()[i as int] == (module@, name@));
                return true;
            }
            assert(self.key_views()[i as int] == (self.keys@[i as int].0@,
                self.keys@[i as int].1@));
            i += 1;
        }
        assert forall|j: int| 0 <= j < self.key_views().len()
            implies self.key_views()[j] != (module@, name@) by {}
        false
    }

    /// Register a whole capability's import keys at once, defensively:
    /// first every key is checked against the namespace and against the
    /// batch itself, then all are committed. On a duplicate nothing is
    /// registered at all, and the error names one offending key.
    pub fn register_all(&mut self, imports: &Vec<(String, String)>) -> (r: Result<
        (),
        DuplicateImportError,
    >)
        requires
            old(self).wf(),
        ensures
            final(self).wf(),
            (r is Ok) <==> old(self).addable(import_views(imports@)),
            r is Ok ==> final(self).key_views() == old(self).key_views() + import_views(
                imports@,
            ),
            r is Err ==> *final(self) == *old(self),
            r matches Err(e) ==> exists|i: int|
                0 <= i < imports@.len() && #[trigger] import_views(imports@)[i] == (
                    e.module@,
                    e.name@,
                ),
    {
        let ghost ivs = import_views(imports@);
        let m = imports.len();
        let mut i: usize = 0;
        while i < m
            invariant
                i <= m,
                m == imports@.len(),
                ivs == import_views(imports@),
                old(self).wf(),
                *self == *old(self),
                forall|a: int| 0 <= a < i ==> !old(self).holds(#[trigger] ivs[a]),
                forall|a: int, b: int| 0 <= a < b < i ==> ivs[a] != ivs[b],
            decreases m - i,
        {
            assert(ivs[i as int] == (imports@[i as int].0@, imports@[i as int].1@));
            if self.holds_key(&imports[i].0, &imports[i].1) {
                proof {
                    assert(old(self).holds(ivs[i as int]));
                    assert(!old(self).addable(ivs));
                }
                return Err(
                    DuplicateImportError {
                        module: imports[i].0.clone(),
                        name: imports[i].1.clone(),
                    },
                );
            }
            let mut j: usize = 0;
            while j < i
                invariant
                    j <= i < m,
                    m == imports@.len(),
                    ivs == import_views(imports@),
                    old(self).wf(),
                    *self == *old(self),
                    forall|b: int| 0 <= b < j ==> ivs[b] != ivs[i as int],
                decreases i - j,
            {
                assert(ivs[j as int] == (imports@[j as int].0@, imports@[j as int].1@));
                if imports[j].0.eq(&imports[i].0) && imports[j].1.eq(&imports[i].1) {
                    proof {
                        assert(ivs[i as int] == (imports@[i as int].0@, imports@[i as int].1@));
                        assert(ivs[j as int] == ivs[i as int]);
                        assert(!old(self).addable(ivs));
                    }
                    return Err(
                        DuplicateImportError {
                            module: imports[i].0.clone(),
                            name: imports[i].1.clone(),
                        },
                    );
                }
                j += 1;
            }
            i += 1;
        }
        assert(old(self).addable(ivs));
        let ghost old_kv = self.key_views();
        let mut k: usize = 0;
        while k < m
            invariant
                k <= m,
                m == imports@.len(),
                ivs == import_views(imports@),
                old_kv == old(self).key_views(),
                old(self).addable(ivs),
                forall|a: int, b: int| 0 <= a < b < old_kv.len() ==> old_kv[a] != old_kv[b],
                self.key_views() == old_kv + ivs.take(k as int),
            decreases m - k,
        {
            let entry = (imports[k].0.clone(), imports[k].1.clone());
            proof {
                assert((entry.0@, entry.1@) == ivs[k as int]);
            }
            let ghost before = self.keys@;
            self.keys.push(entry);
            proof {
                assert(self.key_views() =~= import_views(before).push(ivs[k as int]));
                assert(self.key_views() =~= old_kv + ivs.take(k + 1));
            }
            k += 1;
        }
        proof {
            assert(ivs.take(m as int) =~= ivs);
            let kv = self.key_views();
            assert forall|a: int, b: int| 0 <= a < b < kv.len() implies kv[a] != kv[b] by {
                if b < old_kv.len() {
                } else if a < old_kv.len() {
                    assert(!old(self).holds(ivs[b - old_kv.len()]));
                    assert(old_kv.contains(old_kv[a]));
                } else {
                    assert(ivs[a - old_kv.len()] != ivs[b - old_kv.len()]);
                }
            }
        }
        Ok(())
    }
}

/// The stations of one instance build, in their one lawful order.
#[derive(Clone, Copy, PartialEq, Eq, Structural, Debug)]
pub enum BuildStage {
    Fresh,
    SystemInterfaceAttached,
    HttpAttached,
    Instantiated,
}

/// The assembly of one runnable instance: the namespace accumulated so
/// far, and how far along the fixed attachment order the build is. The
/// system-interface capability is attached to a fresh assembly, the HTTP
/// capability only after it, and instantiation only after both.
pub struct InstanceAssembly {
    pub stage: BuildStage,
    pub namespace: CapabilityNamespace,
}

impl InstanceAssembly {
    pub open spec fn wf(self) -> bool {
        self.namespace.wf()
    }

    pub fn new() -> (a: Self)
        ensures
            a.stage == BuildStage::Fresh,
            a.namespace.key_views() == Seq::<(Seq<char>, Seq<char>)>::empty(),
            a.wf(),
    {
        InstanceAssembly { stage: BuildStage::Fresh, namespace: CapabilityNamespace::new() }
    }

    /// Attach the system-interface capability: the first attachment, on a
    /// fresh assembly only.
    pub fn attach_system_interface(&mut self, imports: &Vec<(String, String)>) -> (r: Result<
        (),
        DuplicateImportError,
    >)
        requires
            old(self).wf(),
            old(self).stage == BuildStage::Fresh,
        ensures
            final(self).wf(),
            (r is Ok) <==> old(self).namespace.addable(import_views(imports@)),
            r is Ok ==> final(self).stage == BuildStage::SystemInterfaceAttached,
            r is Ok ==> final(self).namespace.key_views() == old(self).namespace.key_views()
                + import_views(imports@),
            r is Err ==> *final(self) == *old(self),
    {
        match self.namespace.register_all(imports) {
            Ok(()) => {
                self.stage = BuildStage::SystemInterfaceAttached;
                Ok(())
            },
            Err(e) => Err(e),
        }
    }

    /// Attach the outbound-HTTP capability: only after the system
    /// interface, and before instantiation.
    pub fn attach_http(&mut self, imports: &Vec<(String, String)>) -> (r: Result<
        (),
        DuplicateImportError,
    >)
        requires
            old(self).wf(),
            old(self).stage == BuildStage::SystemInterfaceAttached,
        ensures
            final(self).wf(),
            (r is Ok) <==> old(self).namespace.addable(import_views(imports@)),
            r is Ok ==> final(self).stage == BuildStage::HttpAttached,
            r is Ok ==> final(self).namespace.key_views() == old(self).namespace.key_views()
                + import_views(imports@),
            r is Err ==> *final(self) == *old(self),
    {
        match self.namespace.register_all(imports) {
            Ok(()) => {
                self.stage = BuildStage::HttpAttached;
                Ok(())
            },
            Err(e) => Err(e),
        }
    }

    /// Whether both capabilities are attached, in order, and nothing more
    /// has happened: the one state in which instantiation may proceed.
    pub fn ready_to_instantiate(&self) -> (r: bool)
        ensures
            r == (self.stage == BuildStage::HttpAttached),
    {
        match self.stage {
            BuildStage::HttpAttached => true,
            _ => false,
        }
    }

    /// Record that the module's own initialization has run: the assembly is
    /// spent and admits no further attachment.
    pub fn mark_instantiated(&mut self)
        requires
            old(self).wf(),
            old(self).stage == BuildStage::HttpAttached,
        ensures
            final(self).wf(),
            final(self).stage == BuildStage::Instantiated,
            final(self).namespace == old(self).namespace,
    {
        self.stage = BuildStage::Instantiated;
    }
}

} // verus!
