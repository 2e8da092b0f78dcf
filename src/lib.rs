//! Call-site tagging for typed RPC client calls.
//!
//! The library recognises RPC terminal calls (`trpc.post.useQuery(...)`) in a
//! small expression model and appends a `__boundary` record (file, line and
//! execution side) under the `trpc.context` path of the call's options object.
pub mod ast;
pub mod classify;
pub mod inject;
pub mod laws;
pub mod transform;
