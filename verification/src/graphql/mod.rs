//! The GraphQL objects of the API, and the handling of mutation inputs.
pub mod edges;
pub mod mutations;
pub mod nodes;
pub mod page_info;
