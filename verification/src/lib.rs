//! A marshaling protocol between a host and a sandboxed guest module whose
//! exports take and return numbers only.
//!
//! The guest's side:
//! - `memory`: one guest instance, its linear memory and the table of its
//!   live buffers, with the allocator and the pointer validator;
//! - `adapter`: what the adapters share, taking in a payload of declared
//!   length and publishing a result as a packed pair;
//! - `greeter`: the scalar export and the two text adapters;
//! - `processor`: the tabular adapter.
//!
//! The host's side:
//! - `sandbox`: the guest as the host reaches it, in the engine or as the
//!   reference guest made of the modules above;
//! - `session`: the steps of one call, from sending the inputs to releasing
//!   every buffer;
//! - `host`: the calls, one for each export;
//! - `payloads`: the example command and record.
//!
//! Shared by both sides:
//! - `wire`: nul-terminated text and the packed pair of offset and length;
//! - `text`: UTF-8 bytes and strings;
//! - `tabular` and `codec`: batches of plain values, and their byte stream;
//! - `framing`: the check that a byte stream is sound before it is decoded;
//! - `arrow_batch` and `engine`: the calls into the `arrow` and `wasmtime`
//!   crates, which are trusted as stated there;
//! - `laws`: what holds on every state and input.
pub mod adapter;
pub mod arrow_batch;
pub mod codec;
pub mod engine;
pub mod framing;
pub mod greeter;
pub mod host;
pub mod laws;
pub mod memory;
pub mod payloads;
pub mod processor;
pub mod sandbox;
pub mod session;
pub mod tabular;
pub mod text;
pub mod wire;
