use yeax::app::{
    BanningModule, EmitterModule, Module, ModuleKind, RecorderModule, SecondFactorModule,
    ValueModule,
};
use yeax::auth::{AuthError, AuthModule, LoginResponse};
use yeax::di::{DiError, InjectAction, Injectable};
use yeax::reactor::{Phase, Reactor};

fn value(v: i64) -> ValueModule {
    ValueModule { value: v }
}

#[test]
fn test_it() {
    let mut r = Reactor::new();
    r.add(Module::Alpha(value(10))).unwrap();
    r.add(Module::Beta(value(10))).unwrap();
    r.add(Module::Gamma(value(10))).unwrap();
    r.add(Module::Delta(value(10))).unwrap();
    let inj = Injectable::new(
        vec![
            ModuleKind::Alpha,
            ModuleKind::Beta,
            ModuleKind::Gamma,
            ModuleKind::Delta,
        ],
        InjectAction::SetEach(vec![10]),
    )
    .unwrap();
    r.registry.register_di(inj);
    r.build().unwrap();
}

#[test]
fn store_holds_each_added_module() {
    let mut r = Reactor::new();
    assert_eq!(r.phase, Phase::Empty);
    r.add(Module::Alpha(value(1))).unwrap();
    r.add(Module::Beta(value(2))).unwrap();
    r.add(Module::Recorder(RecorderModule { log: Vec::new() })).unwrap();
    assert_eq!(r.phase, Phase::Assembling);
    assert_eq!(r.len(), 3);
    match r.get(ModuleKind::Alpha) {
        Some(Module::Alpha(m)) => assert_eq!(m.value, 1),
        _ => panic!("alpha missing"),
    }
    match r.get(ModuleKind::Beta) {
        Some(Module::Beta(m)) => assert_eq!(m.value, 2),
        _ => panic!("beta missing"),
    }
    assert!(r.get(ModuleKind::Recorder).is_some());
    assert!(r.get(ModuleKind::Gamma).is_none());
    // positional read access walks the store in insertion order
    assert_eq!(r.module_at(0).kind(), ModuleKind::Alpha);
    assert_eq!(r.module_at(1).kind(), ModuleKind::Beta);
    assert_eq!(r.module_at(2).kind(), ModuleKind::Recorder);
}

#[test]
fn duplicate_module_type_is_rejected() {
    let mut r = Reactor::new();
    r.add(Module::Alpha(value(1))).unwrap();
    let err = r.add(Module::Alpha(value(9))).unwrap_err();
    assert_eq!(err, DiError::DuplicateModuleType(ModuleKind::Alpha));
    // the store is untouched: still one module, holding the first value
    assert_eq!(r.len(), 1);
    match r.get(ModuleKind::Alpha) {
        Some(Module::Alpha(m)) => assert_eq!(m.value, 1),
        _ => panic!("alpha missing"),
    }
}

#[test]
fn injector_gets_three_disjoint_modules() {
    let mut r = Reactor::new();
    r.add(Module::Alpha(value(0))).unwrap();
    r.add(Module::Beta(value(0))).unwrap();
    r.add(Module::Gamma(value(0))).unwrap();
    let inj = Injectable::new(
        vec![ModuleKind::Alpha, ModuleKind::Beta, ModuleKind::Gamma],
        InjectAction::SetEach(vec![1, 2, 3]),
    )
    .unwrap();
    r.registry.register_di(inj);
    r.build().unwrap();
    // each of the three claimed modules was a distinct slot: all three
    // mutations persisted
    match r.get(ModuleKind::Alpha) {
        Some(Module::Alpha(m)) => assert_eq!(m.value, 1),
        _ => panic!("alpha missing"),
    }
    match r.get(ModuleKind::Beta) {
        Some(Module::Beta(m)) => assert_eq!(m.value, 2),
        _ => panic!("beta missing"),
    }
    match r.get(ModuleKind::Gamma) {
        Some(Module::Gamma(m)) => assert_eq!(m.value, 3),
        _ => panic!("gamma missing"),
    }
}

#[test]
fn injectors_run_in_registration_order() {
    let mut r = Reactor::new();
    r.add(Module::Recorder(RecorderModule { log: Vec::new() })).unwrap();
    r.add(Module::EmitterOne(EmitterModule { tag: 1 })).unwrap();
    r.add(Module::EmitterTwo(EmitterModule { tag: 2 })).unwrap();
    r.build().unwrap();
    match r.get(ModuleKind::Recorder) {
        Some(Module::Recorder(m)) => assert_eq!(m.log, vec![1, 2]),
        _ => panic!("recorder missing"),
    }

    // adding the emitters in the other order flips the log
    let mut r2 = Reactor::new();
    r2.add(Module::EmitterTwo(EmitterModule { tag: 2 })).unwrap();
    r2.add(Module::EmitterOne(EmitterModule { tag: 1 })).unwrap();
    r2.add(Module::Recorder(RecorderModule { log: Vec::new() })).unwrap();
    r2.build().unwrap();
    match r2.get(ModuleKind::Recorder) {
        Some(Module::Recorder(m)) => assert_eq!(m.log, vec![2, 1]),
        _ => panic!("recorder missing"),
    }
}

#[test]
fn missing_dependency_fails_the_build() {
    let mut r = Reactor::new();
    r.add(Module::EmitterOne(EmitterModule { tag: 7 })).unwrap();
    let err = r.build().unwrap_err();
    assert_eq!(err, DiError::MissingDependency(ModuleKind::Recorder));
    assert_eq!(r.phase, Phase::Initialized);
    // the failing injector did not run at all
    match r.get(ModuleKind::EmitterOne) {
        Some(Module::EmitterOne(m)) => assert_eq!(m.tag, 7),
        _ => panic!("emitter missing"),
    }
}

#[test]
fn distinct_dependencies_construct() {
    let inj = Injectable::new(
        vec![ModuleKind::Alpha, ModuleKind::Beta],
        InjectAction::SetEach(vec![1, 2]),
    )
    .unwrap();
    assert_eq!(inj.deps, vec![ModuleKind::Alpha, ModuleKind::Beta]);
}

#[test]
fn duplicate_dependency_is_rejected_at_construction() {
    let err = Injectable::new(
        vec![ModuleKind::Alpha, ModuleKind::Alpha],
        InjectAction::SetEach(vec![1, 2]),
    )
    .unwrap_err();
    assert_eq!(
        err,
        DiError::DuplicateDependencyInOneInjector(ModuleKind::Alpha)
    );
}

#[test]
fn duplicate_dependency_is_rejected_at_resolution() {
    let mut r = Reactor::new();
    r.add(Module::Alpha(value(0))).unwrap();
    // an injector assembled by hand, bypassing the constructor check
    r.registry.register_di(Injectable {
        deps: vec![ModuleKind::Alpha, ModuleKind::Alpha],
        action: InjectAction::SetEach(vec![1, 2]),
    });
    let err = r.build().unwrap_err();
    assert_eq!(
        err,
        DiError::DuplicateDependencyInOneInjector(ModuleKind::Alpha)
    );
    // the store is untouched
    match r.get(ModuleKind::Alpha) {
        Some(Module::Alpha(m)) => assert_eq!(m.value, 0),
        _ => panic!("alpha missing"),
    }
}

#[test]
fn build_is_idempotent() {
    let mut r = Reactor::new();
    r.add(Module::Recorder(RecorderModule { log: Vec::new() })).unwrap();
    r.add(Module::EmitterOne(EmitterModule { tag: 1 })).unwrap();
    r.add(Module::EmitterTwo(EmitterModule { tag: 2 })).unwrap();
    r.build().unwrap();
    assert_eq!(r.phase, Phase::Built);
    // a second build must not re-run init or re-execute injectors
    r.build().unwrap();
    match r.get(ModuleKind::Recorder) {
        Some(Module::Recorder(m)) => assert_eq!(m.log, vec![1, 2]),
        _ => panic!("recorder missing"),
    }
}

#[test]
fn login_pipeline_end_to_end() {
    let mut r = Reactor::new();
    r.add(Module::Auth(AuthModule::new())).unwrap();
    r.add(Module::Banning(BanningModule {})).unwrap();
    r.add(Module::SecondFactor(SecondFactorModule {})).unwrap();
    r.build().unwrap();
    let auth = match r.get(ModuleKind::Auth) {
        Some(Module::Auth(a)) => a,
        _ => panic!("auth missing"),
    };
    // the banning injector rejects admin before credentials are compared
    match auth.login("admin", "admin") {
        Err(AuthError::NotAuthorized) => {}
        _ => panic!("admin must be rejected"),
    }
    // the second-factor injector redirects manager
    match auth.login("manager", "manager") {
        Ok(LoginResponse::Redirect(loc)) => assert_eq!(loc, "/login/token"),
        _ => panic!("manager must be redirected"),
    }
    // an ordinary user succeeds plainly
    match auth.login("user", "user") {
        Ok(LoginResponse::Success) => {}
        _ => panic!("user must succeed"),
    }
    // wrong credentials fail
    match auth.login("user", "wrong") {
        Err(AuthError::InvalidCredentials) => {}
        _ => panic!("wrong password must fail"),
    }
}

#[test]
fn hooks_are_wired_by_the_build() {
    let mut r = Reactor::new();
    r.add(Module::Auth(AuthModule::new())).unwrap();
    r.add(Module::Banning(BanningModule {})).unwrap();
    r.build().unwrap();
    let auth = match r.get(ModuleKind::Auth) {
        Some(Module::Auth(a)) => a,
        _ => panic!("auth missing"),
    };
    assert_eq!(auth.pre_auth.len(), 1);
    assert_eq!(auth.post_auth.len(), 0);
    // without the second-factor module, manager logs in plainly
    match auth.login("manager", "manager") {
        Ok(LoginResponse::Success) => {}
        _ => panic!("manager must succeed without the second factor"),
    }
}

#[test]
fn bare_auth_module_login() {
    let auth = AuthModule::new();
    match auth.login("modir", "modir") {
        Ok(LoginResponse::Success) => {}
        _ => panic!("known user must succeed"),
    }
    match auth.login("nobody", "nobody") {
        Err(AuthError::InvalidCredentials) => {}
        _ => panic!("unknown user must fail"),
    }
}
