//! The light-client command protocol: the closed set of requests and the
//! result that answers each.
use crate::commitment::{StateCommitmentProof, UpdateClientCommitmentProof};
use crate::types::{Address, Height, Time};
use vstd::prelude::*;

verus! {

/// Identifier of a light client instance.
#[derive(Clone, Debug)]
pub struct ClientId(pub String);

#[derive(Debug)]
pub enum LightClientCommand {
    InitClient(InitClientInput),
    UpdateClient(UpdateClientInput),
    VerifyMembership(VerifyMembershipInput),
    VerifyNonMembership(VerifyNonMembershipInput),
    QueryClient(QueryClientInput),
}

impl LightClientCommand {
    /// The signer that a command names: the one whose key must sign its
    /// result. A query names none.
    pub open spec fn spec_enclave_key(&self) -> Option<Address> {
        match self {
            LightClientCommand::InitClient(input) => Some(input.signer),
            LightClientCommand::UpdateClient(input) => Some(input.signer),
            LightClientCommand::VerifyMembership(input) => Some(input.signer),
            LightClientCommand::VerifyNonMembership(input) => Some(input.signer),
            LightClientCommand::QueryClient(_) => None,
        }
    }

    pub fn get_enclave_key(&self) -> (r: Option<Address>)
        ensures
            r == self.spec_enclave_key(),
    {
        match self {
            LightClientCommand::InitClient(input) => Some(input.signer),
            LightClientCommand::UpdateClient(input) => Some(input.signer),
            LightClientCommand::VerifyMembership(input) => Some(input.signer),
            LightClientCommand::VerifyNonMembership(input) => Some(input.signer),
            _ => None,
        }
    }
}

#[derive(Debug)]
pub struct InitClientInput {
    pub any_client_state: prost_types::Any,
    pub any_consensus_state: prost_types::Any,
    pub current_timestamp: Time,
    pub signer: Address,
}

#[derive(Debug)]
pub struct UpdateClientInput {
    pub client_id: ClientId,
    pub any_header: prost_types::Any,
    /// Whether the result echoes the updated state; the commitment is the
    /// same either way.
    pub include_state: bool,
    pub current_timestamp: Time,
    pub signer: Address,
}

#[derive(Debug)]
pub struct VerifyMembershipInput {
    pub client_id: ClientId,
    pub prefix: Vec<u8>,
    pub path: String,
    pub value: Vec<u8>,
    pub proof: CommitmentProofPair,
    pub signer: Address,
}

#[derive(Debug)]
pub struct VerifyNonMembershipInput {
    pub client_id: ClientId,
    pub prefix: Vec<u8>,
    pub path: String,
    pub proof: CommitmentProofPair,
    pub signer: Address,
}

/// A proof for a path, and the height at which it was taken.
#[derive(Debug)]
pub struct CommitmentProofPair(pub Height, pub Vec<u8>);

#[derive(Debug)]
pub struct QueryClientInput {
    pub client_id: ClientId,
}

#[derive(Debug)]
pub enum LightClientResult {
    InitClient(InitClientResult),
    UpdateClient(UpdateClientResult),
    VerifyMembership(VerifyMembershipResult),
    VerifyNonMembership(VerifyNonMembershipResult),
    QueryClient(QueryClientResult),
}

#[derive(Debug)]
pub struct InitClientResult {
    pub client_id: ClientId,
    pub proof: UpdateClientCommitmentProof,
}

#[derive(Debug)]
pub struct UpdateClientResult(pub UpdateClientCommitmentProof);

#[derive(Debug)]
pub struct VerifyMembershipResult(pub StateCommitmentProof);

#[derive(Debug)]
pub struct VerifyNonMembershipResult(pub StateCommitmentProof);

#[derive(Debug)]
pub struct QueryClientResult {
    pub any_client_state: prost_types::Any,
    pub any_consensus_state: prost_types::Any,
}

}
