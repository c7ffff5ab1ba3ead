//! Decision engine for a chaos plugin that stresses a payment-routing node:
//! a monetary amount codec, the node data model, run-time configuration,
//! per-entity Bernoulli evaluators, and the tick state machine that drives
//! them against an RPC gateway.

pub mod amount;
pub mod chance;
pub mod config;
pub mod model;
pub mod policy;
pub mod tick;

pub use amount::Amount;
pub use config::{Config, ConfigError, ConfigValue, Probability};
pub use policy::{Action, OpenCandidate};
pub use tick::{Event, LifecycleDecision, Phase, Request, StepResult};
pub use model::{Channel, ListnodesNodesAddress, ListnodesNodesAddressType, MyCustomError, Node,
    Peer};
