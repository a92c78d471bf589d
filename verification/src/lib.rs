//! Ephemeral Tool Isolation.
pub mod bytes;
pub mod command_policy;
pub mod error;
pub mod harness;
pub mod name_map;
pub mod order;
pub mod path_list;
pub mod paths;
pub mod positions;
pub mod proxy;
pub mod text;
pub mod text_laws;
