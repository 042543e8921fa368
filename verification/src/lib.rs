//! Object hierarchy and replication registry of a game engine, together with
//! the small value types its neighbouring subsystems exchange.
//!
//! The hierarchy is an arena: nodes live in a `Hierarchy`, are named by
//! `InstanceId`, and are moved by `Instance::set_parent` alone. The arena only
//! grows; no node is released before the arena is. The contracts
//! are stated over the model in `model` and `events`; what holds of the
//! protocol on every hierarchy is proved in `laws` and `registry_laws`.

pub mod arknet;
pub mod bridge;
pub mod context;
pub mod datamodel;
pub mod event_lemmas;
pub mod events;
pub mod hierarchy;
pub mod instance;
pub mod joints;
pub mod laws;
pub mod model;
pub mod model_lemmas;
pub mod reflection;
pub mod registry_laws;
pub mod render;
pub mod script;
pub mod shader;
pub mod table;
pub mod text;
pub mod texture;
pub mod world;
