use lcp_core::commitment::{UpdateClientCommitment, UpdateClientCommitmentProof};
use lcp_core::gateway::{
    complete_command, copy_result, BoundaryError, CommandParams, CommandResult, ECallCommand, EcallStatus,
};
use lcp_core::light_client::{
    ClientId, InitClientInput, LightClientCommand, LightClientResult, QueryClientInput, UpdateClientResult,
};
use lcp_core::types::{Address, Height, StateID, Time};

fn empty_any() -> prost_types::Any {
    prost_types::Any { type_url: String::new(), value: vec![] }
}

#[test]
fn copy_result_fits() {
    let res = vec![1u8, 2, 3];
    let mut buf = vec![0xeeu8; 5];
    assert_eq!(copy_result(&res, &mut buf), Ok(3));
    assert_eq!(buf, vec![1, 2, 3, 0xee, 0xee]);
}

#[test]
fn copy_result_exact_size() {
    let res = vec![4u8; 8];
    let mut buf = vec![0u8; 8];
    assert_eq!(copy_result(&res, &mut buf), Ok(8));
    assert_eq!(buf, res);
}

#[test]
fn copy_result_buffer_too_small() {
    let res = vec![1u8, 2, 3];
    let mut buf = vec![9u8; 2];
    assert_eq!(copy_result(&res, &mut buf), Err(BoundaryError::BufferTooSmall));
    assert_eq!(buf, vec![9, 9]);
}

#[test]
fn copy_result_empty() {
    let mut buf: Vec<u8> = vec![];
    assert_eq!(copy_result(&[], &mut buf), Ok(0));
}

#[test]
fn business_failure_keeps_success_status() {
    let (status, result) = complete_command(Ok(Err("height is not increasing".to_string())));
    assert_eq!(status, EcallStatus::Success);
    match result {
        CommandResult::CommandError(msg) => assert_eq!(msg, "height is not increasing"),
        _ => panic!("expected an error result"),
    }
}

#[test]
fn call_failure_is_unexpected() {
    let (status, result) = complete_command(Err("key material could not be opened".to_string()));
    assert_eq!(status, EcallStatus::Unexpected);
    match result {
        CommandResult::CommandError(msg) => assert_eq!(msg, "key material could not be opened"),
        _ => panic!("expected an error result"),
    }
}

#[test]
fn success_is_passed_through() {
    let c = UpdateClientCommitment::new(None, Height::new(0, 1), StateID([1u8; 32]), 1, vec![]);
    let p = UpdateClientCommitmentProof::new(&c, Address([2u8; 20]), vec![3]);
    let (status, result) = complete_command(Ok(Ok(LightClientResult::UpdateClient(UpdateClientResult(p)))));
    assert_eq!(status, EcallStatus::Success);
    match result {
        CommandResult::LightClient(LightClientResult::UpdateClient(r)) => assert_eq!(r.0.signature, vec![3]),
        _ => panic!("expected the update result"),
    }
}

#[test]
fn signer_selection() {
    let init = LightClientCommand::InitClient(InitClientInput {
        any_client_state: empty_any(),
        any_consensus_state: empty_any(),
        current_timestamp: Time::from_nanoseconds(5).unwrap(),
        signer: Address([7u8; 20]),
    });
    assert_eq!(init.get_enclave_key(), Some(Address([7u8; 20])));
    let query = LightClientCommand::QueryClient(QueryClientInput { client_id: ClientId("lcp-0".to_string()) });
    assert_eq!(query.get_enclave_key(), None);
    let cmd = ECallCommand { params: CommandParams { home: "/tmp/lcp".to_string() }, cmd: init };
    assert_eq!(cmd.get_enclave_key(), Some(Address([7u8; 20])));
}

#[test]
fn time_from_nanoseconds_range() {
    assert_eq!(Time::from_nanoseconds(0).unwrap().nanoseconds(), 0);
    assert_eq!(Time::from_nanoseconds(u64::MAX as u128).unwrap().nanoseconds(), u64::MAX);
    assert!(Time::from_nanoseconds(u64::MAX as u128 + 1).is_none());
}

#[test]
fn ordering_failure_becomes_error_result() {
    let (status, result) = complete_command(Ok(Err("non-monotonic height: 0-2 <= 0-2".to_string())));
    assert_eq!(status, EcallStatus::Success);
    assert!(matches!(result, CommandResult::CommandError(ref m) if m.contains("non-monotonic")));
}
