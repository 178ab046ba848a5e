//! The module store's element type: a closed enumeration of the module
//! kinds known to this composition, together with the lifecycle contract
//! every module satisfies.
//!
//! The container keys its store by runtime type identity. Here that
//! identity is the tag of a closed enum: every module value is wrapped in
//! [`Module`], and its kind — the enum tag, as a [`ModuleKind`] — is the key
//! under which it is stored and by which injectors request it.

use vstd::prelude::*;

use crate::auth::{AuthModule, AuthModuleModel, PostAuthHook, PreAuthHook};
use crate::di::{regs_of, ActionModel, InjectAction, Injectable, InjectorModel};
use crate::reactor::Registry;

verus! {

/// The type identity of a module. A container holds at most one module of
/// each kind.
#[derive(Clone, Copy, Debug, PartialEq, Eq, Structural)]
pub enum ModuleKind {
    Auth,
    Banning,
    SecondFactor,
    Alpha,
    Beta,
    Gamma,
    Delta,
    Recorder,
    EmitterOne,
    EmitterTwo,
}

/// A module whose `init` step injects a banning rule into the
/// authentication module's pre-authentication hooks.
pub struct BanningModule {}

/// A module whose `init` step injects a second-factor redirect into the
/// authentication module's post-authentication hooks.
pub struct SecondFactorModule {}

/// A plain module holding one value; four kinds of the store wrap it, so
/// that a single injector can claim several distinct modules at once.
pub struct ValueModule {
    pub value: i64,
}

/// A module that keeps an ordered log of the tags recorded into it; it
/// makes the execution order of injectors observable.
pub struct RecorderModule {
    pub log: Vec<i64>,
}

/// A module whose `init` step registers an injector that records its tag
/// into the recorder module.
pub struct EmitterModule {
    pub tag: i64,
}

/// A module instance: one variant per known module kind.
pub enum Module {
    Auth(AuthModule),
    Banning(BanningModule),
    SecondFactor(SecondFactorModule),
    Alpha(ValueModule),
    Beta(ValueModule),
    Gamma(ValueModule),
    Delta(ValueModule),
    Recorder(RecorderModule),
    EmitterOne(EmitterModule),
    EmitterTwo(EmitterModule),
}

/// The mathematical value of a [`Module`].
pub enum ModuleModel {
    Auth(AuthModuleModel),
    Banning,
    SecondFactor,
    Alpha(i64),
    Beta(i64),
    Gamma(i64),
    Delta(i64),
    Recorder(Seq<i64>),
    EmitterOne(i64),
    EmitterTwo(i64),
}

impl View for Module {
    type V = ModuleModel;

    open spec fn view(&self) -> ModuleModel {
        match self {
            Module::Auth(m) => ModuleModel::Auth(m@),
            Module::Banning(_) => ModuleModel::Banning,
            Module::SecondFactor(_) => ModuleModel::SecondFactor,
            Module::Alpha(m) => ModuleModel::Alpha(m.value),
            Module::Beta(m) => ModuleModel::Beta(m.value),
            Module::Gamma(m) => ModuleModel::Gamma(m.value),
            Module::Delta(m) => ModuleModel::Delta(m.value),
            Module::Recorder(m) => ModuleModel::Recorder(m.log@),
            Module::EmitterOne(m) => ModuleModel::EmitterOne(m.tag),
            Module::EmitterTwo(m) => ModuleModel::EmitterTwo(m.tag),
        }
    }
}

impl ModuleModel {
    /// The type identity of a module value.
    pub open spec fn kind(self) -> ModuleKind {
        match self {
            ModuleModel::Auth(_) => ModuleKind::Auth,
            ModuleModel::Banning => ModuleKind::Banning,
            ModuleModel::SecondFactor => ModuleKind::SecondFactor,
            ModuleModel::Alpha(_) => ModuleKind::Alpha,
            ModuleModel::Beta(_) => ModuleKind::Beta,
            ModuleModel::Gamma(_) => ModuleKind::Gamma,
            ModuleModel::Delta(_) => ModuleKind::Delta,
            ModuleModel::Recorder(_) => ModuleKind::Recorder,
            ModuleModel::EmitterOne(_) => ModuleKind::EmitterOne,
            ModuleModel::EmitterTwo(_) => ModuleKind::EmitterTwo,
        }
    }
}

impl Module {
    /// The type identity of this module instance.
    pub fn kind(&self) -> (k: ModuleKind)
        ensures
            k == self@.kind(),
    {
        match self {
            Module::Auth(_) => ModuleKind::Auth,
            Module::Banning(_) => ModuleKind::Banning,
            Module::SecondFactor(_) => ModuleKind::SecondFactor,
            Module::Alpha(_) => ModuleKind::Alpha,
            Module::Beta(_) => ModuleKind::Beta,
            Module::Gamma(_) => ModuleKind::Gamma,
            Module::Delta(_) => ModuleKind::Delta,
            Module::Recorder(_) => ModuleKind::Recorder,
            Module::EmitterOne(_) => ModuleKind::EmitterOne,
            Module::EmitterTwo(_) => ModuleKind::EmitterTwo,
        }
    }
}

/// The mathematical values of a sequence of module instances.
pub open spec fn views(s: Seq<Module>) -> Seq<ModuleModel> {
    s.map_values(|m: Module| m@)
}

/// The lifecycle contract every module satisfies. Only `init` takes part in
/// the wiring: it receives the registry and may register injectors. The
/// other steps are reserved extension points that leave the module as it
/// is.
pub trait App: Sized {
    /// Called on each module before its `init` step.
    fn pre_init(&mut self)
        ensures
            *final(self) == *old(self),
    {
    }

    /// Declare cross-module wiring by registering injectors.
    fn init(&mut self, r: &mut Registry);

    /// Reserved: called after every module's `init` has run.
    fn post_init(&mut self)
        ensures
            *final(self) == *old(self),
    {
    }

    /// Reserved: called when the container is being torn down.
    fn finish(&mut self)
        ensures
            *final(self) == *old(self),
    {
    }
}

impl App for AuthModule {
    fn init(&mut self, r: &mut Registry)
        ensures
            *final(self) == *old(self),
            final(r).regs() == old(r).regs(),
    {
    }
}

impl App for BanningModule {
    fn init(&mut self, r: &mut Registry)
        ensures
            *final(self) == *old(self),
            final(r).regs() == old(r).regs() + regs_of(ModuleModel::Banning),
    {
        let inj = Injectable {
            deps: vec![ModuleKind::Auth],
            action: InjectAction::AppendPreAuth(PreAuthHook::RejectUsername("admin".to_owned())),
        };
        proof {
            assert(inj@.deps =~= seq![ModuleKind::Auth]);
            assert(inj@ == regs_of(ModuleModel::Banning)[0]);
        }
        r.register_di(inj);
        proof {
            assert(r.regs() =~= old(r).regs() + regs_of(ModuleModel::Banning));
        }
    }
}

impl App for SecondFactorModule {
    fn init(&mut self, r: &mut Registry)
        ensures
            *final(self) == *old(self),
            final(r).regs() == old(r).regs() + regs_of(ModuleModel::SecondFactor),
    {
        let inj = Injectable {
            deps: vec![ModuleKind::Auth],
            action: InjectAction::AppendPostAuth(
                PostAuthHook::RedirectUsername("manager".to_owned(), "/login/token".to_owned()),
            ),
        };
        proof {
            assert(inj@.deps =~= seq![ModuleKind::Auth]);
            assert(inj@ == regs_of(ModuleModel::SecondFactor)[0]);
        }
        r.register_di(inj);
        proof {
            assert(r.regs() =~= old(r).regs() + regs_of(ModuleModel::SecondFactor));
        }
    }
}

impl App for ValueModule {
    fn init(&mut self, r: &mut Registry)
        ensures
            *final(self) == *old(self),
            final(r).regs() == old(r).regs(),
    {
    }
}

impl App for RecorderModule {
    fn init(&mut self, r: &mut Registry)
        ensures
            *final(self) == *old(self),
            final(r).regs() == old(r).regs(),
    {
    }
}

impl App for EmitterModule {
    fn init(&mut self, r: &mut Registry)
        ensures
            *final(self) == *old(self),
            final(r).regs() == old(r).regs().push(
                InjectorModel {
                    deps: seq![ModuleKind::Recorder],
                    action: ActionModel::RecordTag(old(self).tag),
                },
            ),
    {
        let inj = Injectable {
            deps: vec![ModuleKind::Recorder],
            action: InjectAction::RecordTag(self.tag),
        };
        proof {
            assert(inj@.deps =~= seq![ModuleKind::Recorder]);
        }
        r.register_di(inj);
    }
}

impl App for Module {
    fn init(&mut self, r: &mut Registry)
        ensures
            *final(self) == *old(self),
            final(r).regs() == old(r).regs() + regs_of(old(self)@),
    {
        match self {
            Module::Auth(m) => m.init(r),
            Module::Banning(m) => m.init(r),
            Module::SecondFactor(m) => m.init(r),
            Module::Alpha(m) => m.init(r),
            Module::Beta(m) => m.init(r),
            Module::Gamma(m) => m.init(r),
            Module::Delta(m) => m.init(r),
            Module::Recorder(m) => m.init(r),
            Module::EmitterOne(m) => m.init(r),
            Module::EmitterTwo(m) => m.init(r),
        }
        proof {
            assert(r.regs() =~= old(r).regs() + regs_of(old(self)@));
        }
    }
}

} // verus!
