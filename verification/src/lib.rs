//! A module-composition runtime: independent modules are registered into a
//! container, may declare deferred injections into each other during an
//! initialization phase, and are wired together by a single build pass.
//!
//! The container (`Reactor`) owns a type-keyed store of modules. During
//! `build`, every module's `init` step may register injectors: deferred
//! callbacks bound to an ordered list of distinct module kinds. The build
//! pass then runs each injector exactly once, in registration order,
//! claiming the declared modules from the store as disjoint owned slots and
//! returning them after the injector's action has been applied.

pub mod app;
pub mod auth;
pub mod di;
pub mod errors;
pub mod filters;
pub mod reactor;
pub mod response;
pub mod tosqlx;
pub mod types;

pub use app::{App, Module, ModuleKind};
pub use di::{DiError, InjectAction, Injectable};
pub use reactor::{Phase, Reactor, Registry};
