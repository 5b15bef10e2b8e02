//! The trusted core of an enclave-hosted light-client proxy: the commitment
//! model, the header variants and their byte envelope, the light-client
//! command protocol, and the decisions of the boundary gateway.

pub mod codec;
pub mod commitment;
pub mod gateway;
pub mod header;
pub mod light_client;
pub mod types;
