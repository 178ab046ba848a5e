//! The container ("reactor") and its build protocol.
//!
//! The reactor owns a type-keyed store of modules and drives the state
//! machine Empty -> Assembling -> Initialized -> Built. `add` fills the
//! store, one module per kind; `build` first runs every module's `init`
//! step, collecting injectors in registration order, and then executes
//! each injector exactly once, claiming its declared modules from the
//! store as disjoint owned slots and returning them afterwards.

use vstd::prelude::*;

use crate::app::{views, App, Module, ModuleKind, ModuleModel};
use crate::di::{
    apply_action, lemma_apply_preserves_kinds, regs_of, spec_apply, DiError, Injectable,
    InjectorModel, injector_views,
};

verus! {

/// The write-side handle passed into each module's `init` step; its only
/// job is to accept injector registrations.
pub struct Registry {
    pub di: Vec<Injectable>,
}

impl Registry {
    /// The registered injectors, in registration order.
    pub open spec fn regs(self) -> Seq<InjectorModel> {
        injector_views(self.di@)
    }

    /// A registry with no registrations.
    pub fn new() -> (r: Registry)
        ensures
            r.regs() == Seq::<InjectorModel>::empty(),
    {
        let r = Registry { di: Vec::new() };
        proof {
            assert(r.regs() =~= Seq::<InjectorModel>::empty());
        }
        r
    }

    /// Register an injector: it is appended to the pending sequence and
    /// will run during the build phase, in registration order.
    pub fn register_di(&mut self, inj: Injectable)
        ensures
            final(self).regs() == old(self).regs().push(inj@),
    {
        self.di.push(inj);
        proof {
            assert(self.regs() =~= old(self).regs().push(inj@));
        }
    }
}

impl Default for Registry {
    fn default() -> (r: Registry)
        ensures
            r.regs() == Seq::<InjectorModel>::empty(),
    {
        Registry::new()
    }
}

/// The build-protocol state of a container.
#[derive(Clone, Copy, Debug, PartialEq, Eq, Structural)]
pub enum Phase {
    /// No module has been added yet.
    Empty,
    /// Modules are being added; `build` has not completed.
    Assembling,
    /// The init pass has run. This state is observable only when the
    /// injector pass failed: the composition is invalid and stays so.
    Initialized,
    /// `build` completed; the container is read-only from here on.
    Built,
}

/// The modules held by a sequence of store slots. Slots are `Option`s only
/// so that an injector invocation can temporarily move the claimed modules
/// out; in every state a caller sees, all slots are filled.
pub open spec fn slot_views(s: Seq<Option<Module>>) -> Seq<ModuleModel> {
    s.map_values(
        |o: Option<Module>|
            match o {
                Some(m) => m@,
                None => arbitrary(),
            },
    )
}

/// Every slot is filled.
pub open spec fn all_filled(s: Seq<Option<Module>>) -> bool {
    forall|i: int| 0 <= i < s.len() ==> (#[trigger] s[i]) is Some
}

/// The store holds at most one module per kind.
pub open spec fn store_distinct(store: Seq<ModuleModel>) -> bool {
    forall|i: int, j: int|
        0 <= i < j < store.len() ==> (#[trigger] store[i]).kind() != (#[trigger] store[j]).kind()
}

/// Whether a module of kind `k` is in the store.
pub open spec fn has_kind(store: Seq<ModuleModel>, k: ModuleKind) -> bool {
    exists|i: int| 0 <= i < store.len() && (#[trigger] store[i]).kind() == k
}

/// The position of the module of kind `k`; meaningful when `has_kind`.
pub open spec fn idx_of(store: Seq<ModuleModel>, k: ModuleKind) -> int {
    choose|i: int| 0 <= i < store.len() && (#[trigger] store[i]).kind() == k
}

/// The module of kind `k`; meaningful when `has_kind`.
pub open spec fn module_of(store: Seq<ModuleModel>, k: ModuleKind) -> ModuleModel {
    store[idx_of(store, k)]
}

/// In a store with distinct kinds, any position holding kind `k` is the
/// position `idx_of` names.
pub proof fn lemma_idx_unique(store: Seq<ModuleModel>, i: int, k: ModuleKind)
    requires
        store_distinct(store),
        0 <= i < store.len(),
        store[i].kind() == k,
    ensures
        has_kind(store, k),
        idx_of(store, k) == i,
{
    assert(has_kind(store, k));
    let j = idx_of(store, k);
    assert(0 <= j < store.len() && store[j].kind() == k);
    if i < j {
        assert(store[i].kind() != store[j].kind());
    } else if j < i {
        assert(store[j].kind() != store[i].kind());
    }
}

/// Resolution of an injector's declared kinds against the store: the
/// position of each, in declared order; or the first configuration error,
/// scanning left to right — a kind that is not in the store, or one that
/// repeats an earlier declared kind.
pub open spec fn resolve(store: Seq<ModuleModel>, deps: Seq<ModuleKind>) -> Result<
    Seq<int>,
    DiError,
>
    decreases deps.len(),
{
    if deps.len() == 0 {
        Ok(Seq::empty())
    } else {
        match resolve(store, deps.drop_last()) {
            Err(e) => Err(e),
            Ok(idxs) => {
                let k = deps.last();
                if !has_kind(store, k) {
                    Err(DiError::MissingDependency(k))
                } else if deps.drop_last().contains(k) {
                    Err(DiError::DuplicateDependencyInOneInjector(k))
                } else {
                    Ok(idxs.push(idx_of(store, k)))
                }
            },
        }
    }
}

/// The positions a successful resolution names.
pub open spec fn resolved_idxs(store: Seq<ModuleModel>, deps: Seq<ModuleKind>) -> Seq<int> {
    match resolve(store, deps) {
        Ok(idxs) => idxs,
        Err(_) => arbitrary(),
    }
}

/// A successful resolution delivers disjoint access: one position per
/// declared kind, every position in bounds and of the declared kind, and
/// no two positions equal — the references an injector receives never
/// alias.
pub proof fn lemma_resolve_disjoint(store: Seq<ModuleModel>, deps: Seq<ModuleKind>)
    requires
        store_distinct(store),
        resolve(store, deps) is Ok,
    ensures
        resolved_idxs(store, deps).len() == deps.len(),
        forall|j: int|
            0 <= j < deps.len() ==> 0 <= #[trigger] resolved_idxs(store, deps)[j] < store.len()
                && store[resolved_idxs(store, deps)[j]].kind() == deps[j],
        forall|a: int, b: int|
            0 <= a < b < deps.len() ==> resolved_idxs(store, deps)[a] != resolved_idxs(
                store,
                deps,
            )[b],
    decreases deps.len(),
{
    if deps.len() > 0 {
        lemma_resolve_disjoint(store, deps.drop_last());
        let k = deps.last();
        let prev = resolved_idxs(store, deps.drop_last());
        let idxs = resolved_idxs(store, deps);
        let i = idx_of(store, k);
        assert(has_kind(store, k));
        assert(0 <= i < store.len() && store[i].kind() == k);
        assert(idxs =~= prev.push(i));
        assert forall|a: int, b: int| 0 <= a < b < deps.len() implies idxs[a] != idxs[b] by {
            if b == deps.len() - 1 {
                assert(deps.drop_last()[a] == deps[a]);
                assert(!deps.drop_last().contains(k));
                assert(store[idxs[a]].kind() == deps[a]);
                if idxs[a] == i {
                    assert(deps[a] == k);
                    assert(deps.drop_last()[a] == k);
                }
            }
        }
    }
}

/// The modules at the given positions, in order.
pub open spec fn gather(store: Seq<ModuleModel>, idxs: Seq<int>) -> Seq<ModuleModel> {
    Seq::new(idxs.len(), |j: int| store[idxs[j]])
}

/// The store with position `idxs[j]` replaced by `vals[j]`, for each `j`.
pub open spec fn multi_update(
    store: Seq<ModuleModel>,
    idxs: Seq<int>,
    vals: Seq<ModuleModel>,
) -> Seq<ModuleModel>
    decreases idxs.len(),
{
    if idxs.len() == 0 || vals.len() == 0 {
        store
    } else {
        multi_update(store.update(idxs[0], vals[0]), idxs.skip(1), vals.skip(1))
    }
}

/// With distinct in-bounds positions, a multi-update writes each value at
/// its position and leaves every other position unchanged.
pub proof fn lemma_multi_update_props(
    store: Seq<ModuleModel>,
    idxs: Seq<int>,
    vals: Seq<ModuleModel>,
)
    requires
        idxs.len() == vals.len(),
        forall|j: int| 0 <= j < idxs.len() ==> 0 <= #[trigger] idxs[j] < store.len(),
        forall|a: int, b: int| 0 <= a < b < idxs.len() ==> idxs[a] != idxs[b],
    ensures
        multi_update(store, idxs, vals).len() == store.len(),
        forall|j: int|
            0 <= j < idxs.len() ==> multi_update(store, idxs, vals)[#[trigger] idxs[j]] == vals[j],
        forall|i: int|
            0 <= i < store.len() && !idxs.contains(i) ==> multi_update(store, idxs, vals)[i]
                == store[i],
    decreases idxs.len(),
{
    if idxs.len() > 0 {
        let store1 = store.update(idxs[0], vals[0]);
        lemma_multi_update_props(store1, idxs.skip(1), vals.skip(1));
        assert forall|j: int|
            0 <= j < idxs.len() implies multi_update(store, idxs, vals)[#[trigger] idxs[j]]
            == vals[j] by {
            if j == 0 {
                assert(!idxs.skip(1).contains(idxs[0]));
                assert(multi_update(store1, idxs.skip(1), vals.skip(1))[idxs[0]] == store1[idxs[0]]);
            } else {
                assert(idxs.skip(1)[j - 1] == idxs[j]);
                assert(vals.skip(1)[j - 1] == vals[j]);
            }
        }
        assert forall|i: int|
            0 <= i < store.len() && !idxs.contains(i) implies multi_update(store, idxs, vals)[i]
            == store[i] by {
            assert(idxs[0] != i);
            assert(!idxs.skip(1).contains(i));
        }
    }
}

/// One injector invocation against the store: resolve the declared kinds,
/// apply the action to the claimed modules, and write them back at their
/// positions. A configuration error leaves the store untouched.
pub open spec fn step(store: Seq<ModuleModel>, inj: InjectorModel) -> Result<
    Seq<ModuleModel>,
    DiError,
> {
    match resolve(store, inj.deps) {
        Err(e) => Err(e),
        Ok(idxs) => Ok(multi_update(store, idxs, spec_apply(inj.action, gather(store, idxs)))),
    }
}

/// The injector pass: run the injectors left to right; the first
/// configuration error stops the pass, with the store as the successful
/// prefix left it and the failing injector not applied at all.
pub open spec fn run_all(store: Seq<ModuleModel>, injs: Seq<InjectorModel>) -> (
    Seq<ModuleModel>,
    Option<DiError>,
)
    decreases injs.len(),
{
    if injs.len() == 0 {
        (store, None)
    } else {
        let prefix = run_all(store, injs.drop_last());
        match prefix.1 {
            Some(_) => prefix,
            None => match step(prefix.0, injs.last()) {
                Err(e) => (prefix.0, Some(e)),
                Ok(st) => (st, None),
            },
        }
    }
}

/// Once the injector pass has failed on a prefix, running the rest changes
/// nothing: the outcome of the whole pass is the outcome at the first
/// error.
pub proof fn lemma_run_all_err_extends(
    store: Seq<ModuleModel>,
    injs: Seq<InjectorModel>,
    m: int,
)
    requires
        0 <= m <= injs.len(),
        run_all(store, injs.take(m)).1 is Some,
    ensures
        run_all(store, injs) == run_all(store, injs.take(m)),
    decreases injs.len() - m,
{
    if m == injs.len() {
        assert(injs.take(m) =~= injs);
    } else {
        assert(injs.take(m + 1).drop_last() =~= injs.take(m));
        assert(injs.take(m + 1).len() == m + 1);
        assert(run_all(store, injs.take(m + 1)) == run_all(store, injs.take(m)));
        lemma_run_all_err_extends(store, injs, m + 1);
    }
}

/// The injectors the init pass collects: each module's registrations, in
/// store order.
pub open spec fn regs_of_store(store: Seq<ModuleModel>) -> Seq<InjectorModel>
    decreases store.len(),
{
    if store.len() == 0 {
        Seq::empty()
    } else {
        regs_of_store(store.drop_last()) + regs_of(store.last())
    }
}

/// Injector order equals registration order: the collected sequence is the
/// store-order concatenation of each module's registrations, so everything
/// an earlier module registers runs before anything a later module
/// registers.
pub proof fn lemma_registration_order(store: Seq<ModuleModel>, i: int)
    requires
        0 <= i < store.len(),
    ensures
        regs_of_store(store) == regs_of_store(store.take(i)) + regs_of(store[i])
            + regs_of_store(store.skip(i + 1)),
    decreases store.len(),
{
    if i == store.len() - 1 {
        assert(store.take(i) =~= store.drop_last());
        assert(store.skip(i + 1) =~= Seq::<ModuleModel>::empty());
        assert(regs_of_store(store) =~= regs_of_store(store.take(i)) + regs_of(store[i])
            + regs_of_store(store.skip(i + 1)));
    } else {
        lemma_registration_order(store.drop_last(), i);
        assert(store.drop_last().take(i) =~= store.take(i));
        assert(store.drop_last()[i] == store[i]);
        assert(store.drop_last().skip(i + 1) =~= store.skip(i + 1).drop_last());
        assert(store.skip(i + 1).len() > 0);
        assert(store.skip(i + 1).last() == store.last());
        assert(regs_of_store(store.skip(i + 1)) == regs_of_store(store.skip(i + 1).drop_last())
            + regs_of(store.last()));
        assert(regs_of_store(store) =~= regs_of_store(store.take(i)) + regs_of(store[i])
            + regs_of_store(store.skip(i + 1)));
    }
}

/// What `add` does to the store: reject a kind that is already present,
/// else append.
pub open spec fn spec_add(store: Seq<ModuleModel>, m: ModuleModel) -> Result<
    Seq<ModuleModel>,
    DiError,
> {
    if has_kind(store, m.kind()) {
        Err(DiError::DuplicateModuleType(m.kind()))
    } else {
        Ok(store.push(m))
    }
}

/// A whole sequence of `add` calls, left to right, starting from `store`.
pub open spec fn fold_adds(store: Seq<ModuleModel>, ms: Seq<ModuleModel>) -> Result<
    Seq<ModuleModel>,
    DiError,
>
    decreases ms.len(),
{
    if ms.len() == 0 {
        Ok(store)
    } else {
        match fold_adds(store, ms.drop_last()) {
            Err(e) => Err(e),
            Ok(st) => spec_add(st, ms.last()),
        }
    }
}

/// For every sequence of `add` calls with pairwise distinct module kinds,
/// assembly succeeds, the store holds exactly those modules in order, and
/// each one is retrievable by its kind.
pub proof fn lemma_assemble_distinct(ms: Seq<ModuleModel>)
    requires
        forall|i: int, j: int|
            0 <= i < j < ms.len() ==> (#[trigger] ms[i]).kind() != (#[trigger] ms[j]).kind(),
    ensures
        fold_adds(Seq::empty(), ms) == Ok::<Seq<ModuleModel>, DiError>(ms),
        forall|i: int|
            0 <= i < ms.len() ==> has_kind(ms, (#[trigger] ms[i]).kind()) && module_of(
                ms,
                ms[i].kind(),
            ) == ms[i],
    decreases ms.len(),
{
    if ms.len() > 0 {
        lemma_assemble_distinct(ms.drop_last());
        let prefix = ms.drop_last();
        let m = ms.last();
        if has_kind(prefix, m.kind()) {
            let i = choose|i: int| 0 <= i < prefix.len() && (#[trigger] prefix[i]).kind()
                == m.kind();
            assert(ms[i] == prefix[i]);
            assert(ms[i].kind() == ms[ms.len() - 1].kind());
            assert(false);
        }
        assert(prefix.push(m) =~= ms);
    } else {
        assert(ms =~= Seq::<ModuleModel>::empty());
    }
    assert forall|i: int|
        0 <= i < ms.len() implies has_kind(ms, (#[trigger] ms[i]).kind()) && module_of(
        ms,
        ms[i].kind(),
    ) == ms[i] by {
        lemma_idx_unique(ms, i, ms[i].kind());
    }
}

/// The container: the type-keyed module store, the registry of injectors,
/// and the build-protocol state.
pub struct Reactor {
    pub apps: Vec<Option<Module>>,
    pub registry: Registry,
    pub phase: Phase,
}

impl Reactor {
    /// The stored modules, in insertion order.
    pub open spec fn store(self) -> Seq<ModuleModel> {
        slot_views(self.apps@)
    }

    /// The registered injectors.
    pub open spec fn regs(self) -> Seq<InjectorModel> {
        self.registry.regs()
    }

    /// Well-formedness: every slot filled, kinds distinct.
    pub open spec fn wf(self) -> bool {
        all_filled(self.apps@) && store_distinct(self.store())
    }

    /// An empty container.
    pub fn new() -> (r: Reactor)
        ensures
            r.wf(),
            r.store() == Seq::<ModuleModel>::empty(),
            r.regs() == Seq::<InjectorModel>::empty(),
            r.phase == Phase::Empty,
    {
        let r = Reactor { apps: Vec::new(), registry: Registry::new(), phase: Phase::Empty };
        proof {
            assert(r.store() =~= Seq::<ModuleModel>::empty());
        }
        r
    }

    /// Add a module to the store. A second module of an already-present
    /// kind is rejected and the container is left exactly as it was.
    pub fn add(&mut self, m: Module) -> (r: Result<(), DiError>)
        requires
            old(self).wf(),
            old(self).phase == Phase::Empty || old(self).phase == Phase::Assembling,
        ensures
            final(self).wf(),
            match spec_add(old(self).store(), m@) {
                Ok(st) => r == Ok::<(), DiError>(()) && final(self).store() == st
                    && final(self).regs() == old(self).regs() && final(self).phase
                    == Phase::Assembling,
                Err(e) => r == Err::<(), DiError>(e) && *final(self) == *old(self),
            },
    {
        let k = m.kind();
        match find_index(&self.apps, k) {
            Some(_) => Err(DiError::DuplicateModuleType(k)),
            None => {
                self.apps.push(Some(m));
                self.phase = Phase::Assembling;
                proof {
                    assert(self.store() =~= old(self).store().push(m@));
                    assert forall|i: int, j: int|
                        0 <= i < j < self.store().len() implies (#[trigger] self.store()[i]).kind()
                        != (#[trigger] self.store()[j]).kind() by {
                        if j == self.store().len() - 1 {
                            assert(self.store()[i] == old(self).store()[i]);
                        }
                    }
                }
                Ok(())
            },
        }
    }

    /// Read access to the module of kind `k`, for the serving layer and
    /// for inspection after the build.
    pub fn get(&self, k: ModuleKind) -> (r: Option<&Module>)
        requires
            self.wf(),
        ensures
            match r {
                Some(m) => has_kind(self.store(), k) && m@ == module_of(self.store(), k)
                    && m@.kind() == k,
                None => !has_kind(self.store(), k),
            },
    {
        match find_index(&self.apps, k) {
            Some(i) => {
                proof {
                    lemma_idx_unique(self.store(), i as int, k);
                }
                self.apps[i].as_ref()
            },
            None => None,
        }
    }

    /// The number of stored modules.
    pub fn len(&self) -> (n: usize)
        ensures
            n == self.store().len(),
    {
        self.apps.len()
    }

    /// Read access to the module at a store position: with `len`, the
    /// read-only traversal the serving layer uses to expose each module.
    pub fn module_at(&self, i: usize) -> (m: &Module)
        requires
            self.wf(),
            i < self.store().len(),
        ensures
            m@ == self.store()[i as int],
    {
        self.apps[i].as_ref().unwrap()
    }

    /// Drive the container through the build protocol. On a container that
    /// is already Built this does nothing: `init` steps are not re-run and
    /// no injector is executed a second time.
    ///
    /// Otherwise the init pass runs `pre_init` and `init` on every module
    /// in store order, collecting the registered injectors, and the
    /// injector pass then executes them in registration order. The first
    /// configuration error — a declared kind that is missing from the
    /// store or declared twice — stops the build: the failing injector is
    /// not applied at all, and the container stays in the Initialized
    /// state, unusable.
    pub fn build(&mut self) -> (r: Result<(), DiError>)
        requires
            old(self).wf(),
            old(self).phase != Phase::Initialized,
        ensures
            final(self).wf(),
            old(self).phase == Phase::Built ==> r == Ok::<(), DiError>(()) && *final(self) == *old(
                self,
            ),
            old(self).phase != Phase::Built ==> ({
                let regs = old(self).regs() + regs_of_store(old(self).store());
                let outcome = run_all(old(self).store(), regs);
                &&& final(self).regs() == regs
                &&& final(self).store() == outcome.0
                &&& match outcome.1 {
                    None => r == Ok::<(), DiError>(()) && final(self).phase == Phase::Built,
                    Some(e) => r == Err::<(), DiError>(e) && final(self).phase
                        == Phase::Initialized,
                }
            }),
    {
        if self.phase == Phase::Built {
            return Ok(());
        }
        let ghost st0 = self.store();
        let ghost regs0 = self.regs();
        // Init pass: pre_init then init for every module, in store order.
        let n = self.apps.len();
        let mut i: usize = 0;
        while i < n
            invariant
                0 <= i <= n,
                self.apps@.len() == n,
                all_filled(self.apps@),
                self.store() == st0,
                store_distinct(st0),
                self.regs() == regs0 + regs_of_store(st0.take(i as int)),
            decreases n - i,
        {
            let ghost prev = self.apps@;
            let mut slot: Option<Module> = None;
            self.apps.set_and_swap(i, &mut slot);
            let mut m = slot.unwrap();
            m.pre_init();
            m.init(&mut self.registry);
            self.apps.set(i, Some(m));
            proof {
                assert(self.apps@ =~= prev);
                assert(st0.take(i + 1).drop_last() =~= st0.take(i as int));
                assert(st0.take(i + 1).last() == st0[i as int]);
                assert(m@ == st0[i as int]);
                assert(self.regs() =~= regs0 + regs_of_store(st0.take(i + 1)));
            }
            i += 1;
        }
        proof {
            assert(st0.take(n as int) =~= st0);
        }
        self.phase = Phase::Initialized;
        let ghost regs = regs0 + regs_of_store(st0);
        // Injector pass: run each injector once, in registration order.
        let total = self.registry.di.len();
        let mut j: usize = 0;
        while j < total
            invariant
                0 <= j <= total,
                self.registry.di@.len() == total,
                self.regs() == regs,
                all_filled(self.apps@),
                store_distinct(self.store()),
                self.phase == Phase::Initialized,
                run_all(st0, regs.take(j as int)) == (self.store(), None::<DiError>),
                st0 == old(self).store(),
                regs == old(self).regs() + regs_of_store(old(self).store()),
                old(self).phase != Phase::Built,
            decreases total - j,
        {
            let ghost cur = self.store();
            let res = run_injector(&mut self.apps, &self.registry.di[j]);
            proof {
                assert(regs.take(j + 1).drop_last() =~= regs.take(j as int));
                assert(regs.take(j + 1).last() == regs[j as int]);
                assert(regs[j as int] == self.registry.di@[j as int]@);
            }
            match res {
                Ok(()) => {
                    proof {
                        assert(run_all(st0, regs.take(j + 1)) == (
                            self.store(),
                            None::<DiError>,
                        ));
                    }
                },
                Err(e) => {
                    proof {
                        assert(run_all(st0, regs.take(j + 1)) == (cur, Some(e)));
                        lemma_run_all_err_extends(st0, regs, j + 1);
                    }
                    return Err(e);
                },
            }
            j += 1;
        }
        proof {
            assert(regs.take(total as int) =~= regs);
        }
        self.phase = Phase::Built;
        Ok(())
    }
}

impl Default for Reactor {
    fn default() -> (r: Reactor)
        ensures
            r.wf(),
            r.store() == Seq::<ModuleModel>::empty(),
            r.regs() == Seq::<InjectorModel>::empty(),
            r.phase == Phase::Empty,
    {
        Reactor::new()
    }
}

/// The position of the module of kind `k` in the slot sequence, if any.
fn find_index(apps: &Vec<Option<Module>>, k: ModuleKind) -> (r: Option<usize>)
    requires
        all_filled(apps@),
    ensures
        match r {
            Some(i) => i < apps@.len() && slot_views(apps@)[i as int].kind() == k,
            None => !has_kind(slot_views(apps@), k),
        },
{
    let mut i: usize = 0;
    while i < apps.len()
        invariant
            0 <= i <= apps@.len(),
            all_filled(apps@),
            forall|t: int| 0 <= t < i ==> slot_views(apps@)[t].kind() != k,
        decreases apps@.len() - i,
    {
        match &apps[i] {
            Some(m) => {
                if m.kind() == k {
                    return Some(i);
                }
            },
            None => {},
        }
        i += 1;
    }
    None
}

/// Whether kind `k` occurs among the first `j` declared kinds.
fn kind_in_prefix(deps: &Vec<ModuleKind>, j: usize, k: ModuleKind) -> (b: bool)
    requires
        j <= deps@.len(),
    ensures
        b == deps@.take(j as int).contains(k),
{
    let mut t: usize = 0;
    while t < j
        invariant
            0 <= t <= j <= deps@.len(),
            forall|a: int| 0 <= a < t ==> deps@[a] != k,
        decreases j - t,
    {
        if deps[t] == k {
            proof {
                assert(deps@.take(j as int)[t as int] == deps@[t as int]);
            }
            return true;
        }
        t += 1;
    }
    proof {
        if deps@.take(j as int).contains(k) {
            let a = choose|a: int| 0 <= a < j && deps@.take(j as int)[a] == k;
            assert(deps@[a] == k);
        }
    }
    false
}

/// Execute one injector against the store: resolve its declared kinds,
/// claim the modules — each slot is emptied, so the claimed modules are
/// pairwise distinct owned values — run the action, and return the modules
/// to their slots. On a configuration error the store is left untouched
/// and the action is not run.
fn run_injector(apps: &mut Vec<Option<Module>>, inj: &Injectable) -> (r: Result<(), DiError>)
    requires
        all_filled(old(apps)@),
        store_distinct(slot_views(old(apps)@)),
    ensures
        all_filled(final(apps)@),
        store_distinct(slot_views(final(apps)@)),
        match step(slot_views(old(apps)@), inj@) {
            Ok(st) => r == Ok::<(), DiError>(()) && slot_views(final(apps)@) == st,
            Err(e) => r == Err::<(), DiError>(e) && final(apps)@ == old(apps)@,
        },
{
    let ghost st0 = slot_views(apps@);
    let n = apps.len();
    // Resolution pass: find each declared kind, reject duplicates; the
    // store is not touched, so an error leaves it exactly as it was.
    let mut idxs: Vec<usize> = Vec::new();
    proof {
        assert(inj.deps@.take(0) =~= Seq::<ModuleKind>::empty());
        assert(idxs@.map_values(|u: usize| u as int) =~= Seq::<int>::empty());
    }
    let mut j: usize = 0;
    while j < inj.deps.len()
        invariant
            0 <= j <= inj.deps@.len(),
            apps@ == old(apps)@,
            apps@.len() == n,
            all_filled(apps@),
            store_distinct(st0),
            st0 == slot_views(apps@),
            idxs@.len() == j,
            resolve(st0, inj.deps@.take(j as int)) == Ok::<Seq<int>, DiError>(
                idxs@.map_values(|u: usize| u as int),
            ),
        decreases inj.deps@.len() - j,
    {
        let k = inj.deps[j];
        proof {
            assert(inj.deps@.take(j + 1).drop_last() =~= inj.deps@.take(j as int));
            assert(inj.deps@.take(j + 1).last() == inj.deps@[j as int]);
        }
        match find_index(apps, k) {
            None => {
                proof {
                    assert(resolve(st0, inj.deps@.take(j + 1)) == Err::<Seq<int>, DiError>(
                        DiError::MissingDependency(k),
                    ));
                    lemma_resolve_err_extends(st0, inj.deps@, j + 1);
                }
                return Err(DiError::MissingDependency(k));
            },
            Some(i) => {
                if kind_in_prefix(&inj.deps, j, k) {
                    proof {
                        assert(resolve(st0, inj.deps@.take(j + 1)) == Err::<Seq<int>, DiError>(
                            DiError::DuplicateDependencyInOneInjector(k),
                        ));
                        lemma_resolve_err_extends(st0, inj.deps@, j + 1);
                    }
                    return Err(DiError::DuplicateDependencyInOneInjector(k));
                }
                proof {
                    lemma_idx_unique(st0, i as int, k);
                    assert(idxs@.push(i).map_values(|u: usize| u as int) =~= idxs@.map_values(
                        |u: usize| u as int,
                    ).push(i as int));
                }
                idxs.push(i);
            },
        }
        j += 1;
    }
    proof {
        assert(inj.deps@.take(inj.deps@.len() as int) =~= inj.deps@);
    }
    let ghost idx_s = idxs@.map_values(|u: usize| u as int);
    proof {
        lemma_resolve_disjoint(st0, inj.deps@);
    }
    // Claim pass: move each resolved module out of its slot. The slots
    // are distinct, so the claimed modules are pairwise distinct values.
    let mut taken: Vec<Module> = Vec::new();
    let mut j2: usize = 0;
    while j2 < idxs.len()
        invariant
            0 <= j2 <= idxs@.len(),
            idxs@.len() == inj.deps@.len(),
            idx_s == idxs@.map_values(|u: usize| u as int),
            resolve(st0, inj.deps@) == Ok::<Seq<int>, DiError>(idx_s),
            st0 == slot_views(old(apps)@),
            all_filled(old(apps)@),
            st0.len() == n,
            store_distinct(st0),
            apps@.len() == n,
            forall|a: int| 0 <= a < idxs@.len() ==> 0 <= #[trigger] idx_s[a] < n,
            forall|a: int, b: int| 0 <= a < b < idxs@.len() ==> idx_s[a] != idx_s[b],
            forall|i: int|
                0 <= i < n && !idx_s.take(j2 as int).contains(i) ==> apps@[i] == old(apps)@[i],
            forall|t: int| 0 <= t < j2 ==> apps@[#[trigger] idx_s[t]] is None,
            taken@.len() == j2,
            forall|t: int| 0 <= t < j2 ==> (#[trigger] taken@[t])@ == st0[idx_s[t]],
        decreases idxs@.len() - j2,
    {
        let i = idxs[j2];
        proof {
            assert(idx_s[j2 as int] == i as int);
            assert(!idx_s.take(j2 as int).contains(i as int));
            assert(apps@[i as int] == old(apps)@[i as int]);
            assert(all_filled(old(apps)@));
            assert(old(apps)@[i as int] is Some);
        }
        let mut slot: Option<Module> = None;
        apps.set_and_swap(i, &mut slot);
        let m = slot.unwrap();
        proof {
            assert(m@ == st0[i as int]);
        }
        taken.push(m);
        proof {
            assert forall|i2: int|
                0 <= i2 < n && !idx_s.take(j2 + 1).contains(i2) implies apps@[i2] == old(
                apps,
            )@[i2] by {
                assert(!idx_s.take(j2 as int).contains(i2));
                assert(idx_s.take(j2 + 1)[j2 as int] == idx_s[j2 as int]);
                assert(i2 != idx_s[j2 as int]);
            }
        }
        j2 += 1;
    }
    // Run the action on the claimed modules.
    proof {
        assert(views(taken@) =~= gather(st0, idx_s));
    }
    let mut applied = apply_action(&inj.action, taken);
    let ghost applied_s = spec_apply(inj@.action, gather(st0, idx_s));
    proof {
        lemma_apply_preserves_kinds(inj@.action, gather(st0, idx_s));
        assert(applied_s.len() == idx_s.len());
    }
    // Return pass: refill each claimed slot with its updated module.
    let mut j3: usize = idxs.len();
    while j3 > 0
        invariant
            0 <= j3 <= idxs@.len(),
            idxs@.len() == inj.deps@.len(),
            idx_s == idxs@.map_values(|u: usize| u as int),
            resolve(st0, inj.deps@) == Ok::<Seq<int>, DiError>(idx_s),
            st0 == slot_views(old(apps)@),
            st0.len() == n,
            store_distinct(st0),
            apps@.len() == n,
            forall|a: int| 0 <= a < idxs@.len() ==> 0 <= #[trigger] idx_s[a] < n,
            forall|a: int, b: int| 0 <= a < b < idxs@.len() ==> idx_s[a] != idx_s[b],
            applied_s == spec_apply(inj@.action, gather(st0, idx_s)),
            applied_s.len() == idx_s.len(),
            all_filled(old(apps)@),
            views(applied@) == applied_s.take(j3 as int),
            applied@.len() == j3,
            forall|i: int|
                0 <= i < n && !idx_s.contains(i) ==> apps@[i] == old(apps)@[i],
            forall|t: int| 0 <= t < j3 ==> apps@[#[trigger] idx_s[t]] is None,
            forall|t: int|
                j3 <= t < idx_s.len() ==> (#[trigger] apps@[idx_s[t]]) is Some
                    && slot_views(apps@)[idx_s[t]] == applied_s[t],
        decreases j3,
    {
        let ghost applied_prev = applied@;
        let v = applied.pop().unwrap();
        j3 -= 1;
        proof {
            assert(views(applied_prev)[j3 as int] == v@);
            assert(v@ == applied_s.take(j3 + 1)[j3 as int]);
            assert(v@ == applied_s[j3 as int]);
            assert(views(applied@) =~= applied_s.take(j3 as int));
        }
        let i = idxs[j3];
        apps.set(i, Some(v));
        proof {
            assert forall|t: int|
                j3 <= t < idx_s.len() implies (#[trigger] apps@[idx_s[t]]) is Some && slot_views(
                apps@,
            )[idx_s[t]] == applied_s[t] by {
                if t != j3 {
                    assert(idx_s[t] != idx_s[j3 as int]);
                }
            }
        }
    }
    // The store now equals the specified multi-update.
    proof {
        lemma_multi_update_props(st0, idx_s, applied_s);
        assert forall|i: int|
            0 <= i < n implies slot_views(apps@)[i] == multi_update(st0, idx_s, applied_s)[i]
            && apps@[i] is Some by {
            if idx_s.contains(i) {
                let t = choose|t: int| 0 <= t < idx_s.len() && idx_s[t] == i;
                assert(apps@[idx_s[t]] is Some);
                assert(slot_views(apps@)[idx_s[t]] == applied_s[t]);
                assert(multi_update(st0, idx_s, applied_s)[idx_s[t]] == applied_s[t]);
            } else {
                assert(apps@[i] == old(apps)@[i]);
            }
        }
        assert forall|i: int| 0 <= i < apps@.len() implies (#[trigger] apps@[i]) is Some by {
            if idx_s.contains(i) {
                let t = choose|t: int| 0 <= t < idx_s.len() && idx_s[t] == i;
                assert(apps@[idx_s[t]] is Some);
            } else {
                assert(apps@[i] == old(apps)@[i]);
            }
        }
        assert(all_filled(apps@));
        assert(slot_views(apps@) =~= multi_update(st0, idx_s, applied_s));
        assert forall|a: int, b: int|
            0 <= a < b < n implies (#[trigger] slot_views(apps@)[a]).kind() != (
            #[trigger] slot_views(apps@)[b]).kind() by {
            assert(slot_views(apps@)[a].kind() == st0[a].kind());
            assert(slot_views(apps@)[b].kind() == st0[b].kind());
        }
    }
    Ok(())
}

/// Once resolution has failed on a prefix of the declared kinds, the whole
/// resolution fails the same way.
pub proof fn lemma_resolve_err_extends(
    store: Seq<ModuleModel>,
    deps: Seq<ModuleKind>,
    m: int,
)
    requires
        0 <= m <= deps.len(),
        resolve(store, deps.take(m)) is Err,
    ensures
        resolve(store, deps) == resolve(store, deps.take(m)),
    decreases deps.len() - m,
{
    if m == deps.len() {
        assert(deps.take(m) =~= deps);
    } else {
        assert(deps.take(m + 1).drop_last() =~= deps.take(m));
        assert(resolve(store, deps.take(m + 1)) == resolve(store, deps.take(m)));
        lemma_resolve_err_extends(store, deps, m + 1);
    }
}

} // verus!
