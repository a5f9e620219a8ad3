//! Verified core of an agent-governance platform: privilege rings, agent
//! identities and registry attestations, escalation approval, MCP tool
//! policy enforcement, compliance rules, a hash-chained action log,
//! shadow-agent discovery, a stateless execution kernel and a circuit
//! breaker.
pub mod text;
pub mod codec;
pub mod crypto;
pub mod clock;
pub mod ring;
pub mod strmap;
pub mod keystore;
pub mod identity;
pub mod attestation;
pub mod registry;
pub mod idmap;
pub mod escalation;
pub mod audit;
pub mod compliance;
pub mod action_log;
pub mod policy_store;
pub mod governance;
pub mod kernel;
pub mod circuit_breaker;
pub mod saga;
pub mod discovery;
pub mod wire;
pub mod gateway;
pub mod server;
