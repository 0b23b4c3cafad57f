//! The rules of a proxy filter that limits and authorises requests.
//!
//! A policy names attributes of a request by selectors, and says under which
//! conditions on them which descriptors go out. This library splits selectors
//! into paths, knows the types of the well-known attributes, decodes the
//! buffers in which the host hands attributes over, compiles each condition
//! once into a predicate of the Common Expression Language, and evaluates
//! the predicates. The expression language itself is that of `cel_parser`
//! and `cel_interpreter`: what is taken on trust of them stands in [`cel`].

pub mod attribute;
pub mod cel;
pub mod compile;
pub mod configuration;
pub mod envoy_ext_auth;
pub mod expression;
pub mod literal;
pub mod once_slot;
pub mod path;
pub mod policy;
pub mod policy_index;
pub mod schema;
pub mod service;
pub mod text;
