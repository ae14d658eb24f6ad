//! Decision core of a Kubernetes port-forward orchestrator.

pub mod deploy;
pub mod discovery;
pub mod keys;
pub mod model;
pub mod naming;
pub mod numeric;
pub mod registry;
pub mod start;
pub mod start_invariant;
pub mod stop;
pub mod stop_all;
pub mod stop_proxy;
pub mod template;
pub mod text;
