//! Control plane for a set of named process sessions: the command protocol,
//! the registry of operator connections and the health sampler, with their
//! behaviour stated in contracts and proved.

pub mod clock;
pub mod connection;
pub mod decimal;
pub mod health;
pub mod identity;
pub mod protocol;
pub mod registry;
pub mod sampler;
pub mod text;
