//! Injectors: deferred units of cross-module wiring.
//!
//! An injector pairs an ordered list of distinct module kinds — the modules
//! it needs exclusive access to — with an action to apply to them. Its
//! declared kinds are fixed at construction; the container resolves them
//! against the store during the build phase and hands the action the
//! claimed modules, in the declared order.

use vstd::prelude::*;

use crate::app::{views, BanningModule, Module, ModuleKind, ModuleModel, ValueModule};
use crate::auth::{AuthModuleModel, PostAuthHook, PostAuthHookModel, PreAuthHook, PreAuthHookModel};

verus! {

/// A configuration-shape error: the composition graph is invalid and the
/// container must not come up.
#[derive(Clone, Copy, Debug, PartialEq, Eq, Structural)]
pub enum DiError {
    /// A second module of an already-present kind was added.
    DuplicateModuleType(ModuleKind),
    /// An injector declared a kind that is not in the store.
    MissingDependency(ModuleKind),
    /// An injector declared the same kind twice.
    DuplicateDependencyInOneInjector(ModuleKind),
}

/// What an injector does with the modules it claimed. The action receives
/// the claimed modules in the injector's declared dependency order.
#[derive(Debug)]
pub enum InjectAction {
    /// Append a hook to the authentication module's pre-authentication
    /// list; the authentication module is the first declared dependency.
    AppendPreAuth(PreAuthHook),
    /// Append a hook to the authentication module's post-authentication
    /// list; the authentication module is the first declared dependency.
    AppendPostAuth(PostAuthHook),
    /// Set the value of each claimed value module: the module at dependency
    /// position `j` receives the `j`-th value of the list.
    SetEach(Vec<i64>),
    /// Record a tag into the claimed recorder module, the first declared
    /// dependency.
    RecordTag(i64),
}

/// The mathematical value of an [`InjectAction`].
pub enum ActionModel {
    AppendPreAuth(PreAuthHookModel),
    AppendPostAuth(PostAuthHookModel),
    SetEach(Seq<i64>),
    RecordTag(i64),
}

impl View for InjectAction {
    type V = ActionModel;

    open spec fn view(&self) -> ActionModel {
        match self {
            InjectAction::AppendPreAuth(h) => ActionModel::AppendPreAuth(h@),
            InjectAction::AppendPostAuth(h) => ActionModel::AppendPostAuth(h@),
            InjectAction::SetEach(vs) => ActionModel::SetEach(vs@),
            InjectAction::RecordTag(t) => ActionModel::RecordTag(*t),
        }
    }
}

/// An injector: the declared dependency kinds, in order, and the action to
/// run on them.
#[derive(Debug)]
pub struct Injectable {
    pub deps: Vec<ModuleKind>,
    pub action: InjectAction,
}

/// The mathematical value of an [`Injectable`].
pub struct InjectorModel {
    pub deps: Seq<ModuleKind>,
    pub action: ActionModel,
}

impl View for Injectable {
    type V = InjectorModel;

    open spec fn view(&self) -> InjectorModel {
        InjectorModel { deps: self.deps@, action: self.action@ }
    }
}

/// Pairwise distinctness of a list of module kinds.
pub open spec fn distinct_kinds(s: Seq<ModuleKind>) -> bool {
    forall|i: int, j: int| 0 <= i < j < s.len() ==> s[i] != s[j]
}

/// The first kind, scanning left to right from position `j`, that repeats
/// an earlier kind of the list.
pub open spec fn first_dup_from(s: Seq<ModuleKind>, j: int) -> ModuleKind
    decreases s.len() - j,
{
    if j < 0 || j >= s.len() {
        arbitrary()
    } else if s.take(j).contains(s[j]) {
        s[j]
    } else {
        first_dup_from(s, j + 1)
    }
}

/// The first duplicated kind of a list.
pub open spec fn first_dup_kind(s: Seq<ModuleKind>) -> ModuleKind {
    first_dup_from(s, 0)
}

proof fn lemma_first_dup_from_skip(s: Seq<ModuleKind>, j: int)
    requires
        0 <= j <= s.len(),
        forall|t: int| 0 <= t < j ==> !s.take(t).contains(s[t]),
    ensures
        first_dup_from(s, 0) == first_dup_from(s, j),
    decreases j,
{
    if j > 0 {
        lemma_first_dup_from_skip(s, j - 1);
        assert(!s.take(j - 1).contains(s[j - 1]));
    }
}

impl Injectable {
    /// Build an injector; a dependency list that names the same kind twice
    /// is rejected at construction time.
    pub fn new(deps: Vec<ModuleKind>, action: InjectAction) -> (r: Result<Injectable, DiError>)
        ensures
            distinct_kinds(deps@) ==> (r matches Ok(inj) && inj@.deps == deps@ && inj@.action
                == action@),
            !distinct_kinds(deps@) ==> r == Err::<Injectable, DiError>(
                DiError::DuplicateDependencyInOneInjector(first_dup_kind(deps@)),
            ),
    {
        let ghost s = deps@;
        let mut j: usize = 0;
        while j < deps.len()
            invariant
                0 <= j <= deps.len(),
                s == deps@,
                forall|a: int, b: int| 0 <= a < b < j ==> s[a] != s[b],
            decreases deps.len() - j,
        {
            let mut i: usize = 0;
            while i < j
                invariant
                    0 <= i <= j < deps.len(),
                    s == deps@,
                    forall|a: int, b: int| 0 <= a < b < j ==> s[a] != s[b],
                    forall|a: int| 0 <= a < i ==> s[a] != s[j as int],
                decreases j - i,
            {
                if deps[i] == deps[j] {
                    proof {
                        assert(s.take(j as int)[i as int] == s[i as int]);
                        assert(s.take(j as int).contains(s[j as int]));
                        assert forall|t: int| 0 <= t < j implies !s.take(t).contains(s[t]) by {
                            if s.take(t).contains(s[t]) {
                                let a = choose|a: int| 0 <= a < t && s.take(t)[a] == s[t];
                                assert(s[a] == s[t]);
                            }
                        }
                        lemma_first_dup_from_skip(s, j as int);
                        assert(!distinct_kinds(s));
                    }
                    return Err(DiError::DuplicateDependencyInOneInjector(deps[j]));
                }
                i += 1;
            }
            j += 1;
        }
        proof {
            assert(distinct_kinds(s));
        }
        Ok(Injectable { deps, action })
    }
}

/// A list of registered injectors, as their mathematical values.
pub open spec fn injector_views(s: Seq<Injectable>) -> Seq<InjectorModel> {
    s.map_values(|i: Injectable| i@)
}

/// The injectors a module registers during its `init` step, in
/// registration order.
pub open spec fn regs_of(m: ModuleModel) -> Seq<InjectorModel> {
    match m {
        ModuleModel::Banning => seq![
            InjectorModel {
                deps: seq![ModuleKind::Auth],
                action: ActionModel::AppendPreAuth(PreAuthHookModel::RejectUsername("admin"@)),
            },
        ],
        ModuleModel::SecondFactor => seq![
            InjectorModel {
                deps: seq![ModuleKind::Auth],
                action: ActionModel::AppendPostAuth(
                    PostAuthHookModel::RedirectUsername("manager"@, "/login/token"@),
                ),
            },
        ],
        ModuleModel::EmitterOne(tag) => seq![
            InjectorModel {
                deps: seq![ModuleKind::Recorder],
                action: ActionModel::RecordTag(tag),
            },
        ],
        ModuleModel::EmitterTwo(tag) => seq![
            InjectorModel {
                deps: seq![ModuleKind::Recorder],
                action: ActionModel::RecordTag(tag),
            },
        ],
        _ => Seq::empty(),
    }
}

/// Replacing the value of a value module; any other module is unchanged.
pub open spec fn set_value_model(m: ModuleModel, v: i64) -> ModuleModel {
    match m {
        ModuleModel::Alpha(_) => ModuleModel::Alpha(v),
        ModuleModel::Beta(_) => ModuleModel::Beta(v),
        ModuleModel::Gamma(_) => ModuleModel::Gamma(v),
        ModuleModel::Delta(_) => ModuleModel::Delta(v),
        _ => m,
    }
}

/// What an action does to the modules an injector claimed, position by
/// position. A module of a kind the action does not speak about is left
/// unchanged.
pub open spec fn spec_apply(a: ActionModel, mods: Seq<ModuleModel>) -> Seq<ModuleModel> {
    match a {
        ActionModel::AppendPreAuth(h) => if mods.len() > 0 {
            match mods[0] {
                ModuleModel::Auth(am) => mods.update(
                    0,
                    ModuleModel::Auth(
                        AuthModuleModel {
                            pre_auth: am.pre_auth.push(h),
                            post_auth: am.post_auth,
                        },
                    ),
                ),
                _ => mods,
            }
        } else {
            mods
        },
        ActionModel::AppendPostAuth(h) => if mods.len() > 0 {
            match mods[0] {
                ModuleModel::Auth(am) => mods.update(
                    0,
                    ModuleModel::Auth(
                        AuthModuleModel {
                            pre_auth: am.pre_auth,
                            post_auth: am.post_auth.push(h),
                        },
                    ),
                ),
                _ => mods,
            }
        } else {
            mods
        },
        ActionModel::SetEach(vs) => Seq::new(
            mods.len(),
            |j: int|
                if j < vs.len() {
                    set_value_model(mods[j], vs[j])
                } else {
                    mods[j]
                },
        ),
        ActionModel::RecordTag(t) => if mods.len() > 0 {
            match mods[0] {
                ModuleModel::Recorder(log) => mods.update(0, ModuleModel::Recorder(log.push(t))),
                _ => mods,
            }
        } else {
            mods
        },
    }
}

/// An action never changes how many modules it was handed, nor the kind at
/// any position: the claimed slots go back to the store under the kinds
/// they were claimed for.
pub proof fn lemma_apply_preserves_kinds(a: ActionModel, mods: Seq<ModuleModel>)
    ensures
        spec_apply(a, mods).len() == mods.len(),
        forall|j: int| 0 <= j < mods.len() ==> (#[trigger] spec_apply(a, mods)[j]).kind()
            == mods[j].kind(),
{
}

fn set_value_exec(m: Module, v: i64) -> (r: Module)
    ensures
        r@ == set_value_model(m@, v),
{
    match m {
        Module::Alpha(_) => Module::Alpha(ValueModule { value: v }),
        Module::Beta(_) => Module::Beta(ValueModule { value: v }),
        Module::Gamma(_) => Module::Gamma(ValueModule { value: v }),
        Module::Delta(_) => Module::Delta(ValueModule { value: v }),
        other => other,
    }
}

/// Apply an action to the modules claimed for one injector invocation.
pub fn apply_action(action: &InjectAction, mods: Vec<Module>) -> (out: Vec<Module>)
    ensures
        views(out@) == spec_apply(action@, views(mods@)),
{
    let ghost orig = views(mods@);
    let mut mods = mods;
    match action {
        InjectAction::AppendPreAuth(h) => {
            if mods.len() > 0 {
                let mut tmp = Module::Banning(BanningModule {});
                mods.set_and_swap(0, &mut tmp);
                let ghost tmp0 = tmp@;
                let new0 = match tmp {
                    Module::Auth(mut a) => {
                        let ghost a0 = a@;
                        let hd = h.duplicate();
                        a.pre_auth.push(hd);
                        proof {
                            assert(a@.pre_auth =~= a0.pre_auth.push(h@));
                            assert(a@.post_auth =~= a0.post_auth);
                        }
                        Module::Auth(a)
                    },
                    other => other,
                };
                mods.set(0, new0);
                proof {
                    assert(tmp0 == orig[0]);
                    assert(action@ == ActionModel::AppendPreAuth(h@));
                    assert(mods@.len() == orig.len());
                    assert(forall|t: int| 1 <= t < orig.len() ==> views(mods@)[t] == orig[t]);
                    assert(views(mods@)[0] == new0@);
                    assert(views(mods@) =~~= spec_apply(action@, orig));
                }
            }
            mods
        },
        InjectAction::AppendPostAuth(h) => {
            if mods.len() > 0 {
                let mut tmp = Module::Banning(BanningModule {});
                mods.set_and_swap(0, &mut tmp);
                let ghost tmp0 = tmp@;
                let new0 = match tmp {
                    Module::Auth(mut a) => {
                        let ghost a0 = a@;
                        let hd = h.duplicate();
                        a.post_auth.push(hd);
                        proof {
                            assert(a@.post_auth =~= a0.post_auth.push(h@));
                            assert(a@.pre_auth =~= a0.pre_auth);
                        }
                        Module::Auth(a)
                    },
                    other => other,
                };
                mods.set(0, new0);
                proof {
                    assert(tmp0 == orig[0]);
                    assert(mods@.len() == orig.len());
                    assert(forall|t: int| 1 <= t < orig.len() ==> views(mods@)[t] == orig[t]);
                    assert(views(mods@)[0] == new0@);
                    assert(views(mods@) =~~= spec_apply(action@, orig));
                }
            }
            mods
        },
        InjectAction::SetEach(vs) => {
            let mut j: usize = 0;
            while j < vs.len() && j < mods.len()
                invariant
                    0 <= j,
                    mods@.len() == orig.len(),
                    forall|t: int| 0 <= t < orig.len() ==> views(mods@)[t] == (if t < j
                        && t < vs@.len() {
                        set_value_model(orig[t], vs@[t])
                    } else {
                        orig[t]
                    }),
                decreases vs.len() - j,
            {
                let ghost prev = mods@;
                let mut tmp = Module::Banning(BanningModule {});
                mods.set_and_swap(j, &mut tmp);
                let nm = set_value_exec(tmp, vs[j]);
                mods.set(j, nm);
                proof {
                    assert(views(prev)[j as int] == orig[j as int]);
                    assert(tmp@ == views(prev)[j as int]);
                    assert(views(mods@)[j as int] == nm@);
                    assert(forall|t: int| 0 <= t < orig.len() && t != j ==> views(mods@)[t]
                        == views(prev)[t]);
                }
                j += 1;
                proof {
                    assert forall|t: int| 0 <= t < orig.len() implies views(mods@)[t] == (if t < j
                        && t < vs@.len() {
                        set_value_model(orig[t], vs@[t])
                    } else {
                        orig[t]
                    }) by {
                        if t != j - 1 {
                            assert(views(mods@)[t] == views(prev)[t]);
                            assert(views(prev)[t] == (if t < j - 1 && t < vs@.len() {
                                set_value_model(orig[t], vs@[t])
                            } else {
                                orig[t]
                            }));
                        }
                    }
                }
            }
            proof {
                assert(views(mods@) =~~= spec_apply(action@, orig));
            }
            mods
        },
        InjectAction::RecordTag(t) => {
            if mods.len() > 0 {
                let mut tmp = Module::Banning(BanningModule {});
                mods.set_and_swap(0, &mut tmp);
                let new0 = match tmp {
                    Module::Recorder(mut rec) => {
                        rec.log.push(*t);
                        Module::Recorder(rec)
                    },
                    other => other,
                };
                mods.set(0, new0);
                proof {
                    assert(views(mods@) =~~= spec_apply(action@, orig));
                }
            }
            mods
        },
    }
}

} // verus!
