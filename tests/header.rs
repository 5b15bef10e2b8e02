use lcp_core::commitment::{UpdateClientCommitment, UpdateClientCommitmentProof};
use lcp_core::header::{
    ActivateHeader, AttestationVerificationReport, Commitment, Header, HeaderError,
    RegisterEnclaveKeyHeader, UpdateClientHeader,
};
use lcp_core::types::{Address, Height, StateID, LCP_HEADER_TYPE_URL};

fn commitment(ts: u128) -> UpdateClientCommitment {
    UpdateClientCommitment::new(
        Some((Height::new(0, 9), StateID([2u8; 32]))),
        Height::new(0, 10),
        StateID([3u8; 32]),
        ts,
        vec![5, 5],
    )
}

fn update_header(ts: u128) -> Header {
    let p = UpdateClientCommitmentProof::new(&commitment(ts), Address([8u8; 20]), vec![0xab; 65]);
    Header::UpdateClient(UpdateClientHeader::new(p).unwrap())
}

fn activate_header() -> Header {
    let p = UpdateClientCommitmentProof::new(&commitment(1), Address([6u8; 20]), vec![1]);
    Header::Activate(ActivateHeader::new(vec![10, 11, 12], p).unwrap())
}

fn register_header() -> Header {
    Header::RegisterEnclaveKey(RegisterEnclaveKeyHeader(AttestationVerificationReport {
        avr: b"{\"id\":\"1\"}".to_vec(),
        signature: vec![1, 2, 3],
        signing_cert: vec![4, 5],
    }))
}

fn same(a: &Header, b: &Header) {
    match (a, b) {
        (Header::Activate(x), Header::Activate(y)) => {
            assert_eq!(x.state(), y.state());
            assert_eq!(x.commitment_proof().commitment_bytes, y.commitment_proof().commitment_bytes);
            assert_eq!(x.commitment_proof().signer, y.commitment_proof().signer);
            assert_eq!(x.commitment_proof().signature, y.commitment_proof().signature);
            assert_eq!(x.commitment().to_bytes(), y.commitment().to_bytes());
        }
        (Header::RegisterEnclaveKey(x), Header::RegisterEnclaveKey(y)) => {
            assert_eq!(x.0.avr, y.0.avr);
            assert_eq!(x.0.signature, y.0.signature);
            assert_eq!(x.0.signing_cert, y.0.signing_cert);
        }
        (Header::UpdateClient(x), Header::UpdateClient(y)) => {
            assert_eq!(x.commitment_proof().commitment_bytes, y.commitment_proof().commitment_bytes);
            assert_eq!(x.commitment_proof().signer, y.commitment_proof().signer);
            assert_eq!(x.commitment_proof().signature, y.commitment_proof().signature);
            assert_eq!(x.commitment().to_bytes(), y.commitment().to_bytes());
        }
        _ => panic!("different header kinds"),
    }
}

#[test]
fn header_round_trip_every_kind() {
    for h in [activate_header(), register_header(), update_header(42)] {
        let any = h.to_any();
        assert_eq!(any.type_url, LCP_HEADER_TYPE_URL);
        let d = Header::from_any(&any).unwrap();
        same(&h, &d);
        assert_eq!(Header::decode_value(&h.encode_value()).unwrap().encode_value(), h.encode_value());
        same(&h, &Header::decode_vec(&h.encode_vec()).unwrap());
    }
}

#[test]
fn header_tags_distinguish_kinds() {
    assert_eq!(activate_header().encode_value()[0], 0);
    assert_eq!(register_header().encode_value()[0], 1);
    assert_eq!(update_header(0).encode_value()[0], 2);
}

#[test]
fn header_empty_type_rejected() {
    let mut any = update_header(1).to_any();
    any.type_url = String::new();
    assert_eq!(Header::from_any(&any).unwrap_err(), HeaderError::EmptyType);
}

#[test]
fn header_unknown_type_rejected() {
    let mut any = update_header(1).to_any();
    any.type_url = "/ibc.lightclients.tendermint.v1.Header".to_string();
    assert_eq!(
        Header::from_any(&any).unwrap_err(),
        HeaderError::UnknownType("/ibc.lightclients.tendermint.v1.Header".to_string())
    );
    assert_ne!(HeaderError::EmptyType, HeaderError::UnknownType(String::new()));
}

#[test]
fn header_invalid_value_rejected() {
    let mut any = update_header(1).to_any();
    any.value.truncate(10);
    assert_eq!(Header::from_any(&any).unwrap_err(), HeaderError::InvalidRawHeader);
    assert_eq!(Header::decode_value(&[]).unwrap_err(), HeaderError::InvalidRawHeader);
    assert_eq!(Header::decode_value(&[3]).unwrap_err(), HeaderError::InvalidRawHeader);
}

#[test]
fn header_with_undecodable_commitment_rejected() {
    let mut bytes = vec![2u8];
    bytes.extend_from_slice(&[1, 0, 0, 0, 0, 0, 0, 0, 7]);
    bytes.extend_from_slice(&[0u8; 20]);
    bytes.extend_from_slice(&[0, 0, 0, 0, 0, 0, 0, 0]);
    assert_eq!(Header::decode_value(&bytes).unwrap_err(), HeaderError::InvalidRawHeader);
}

#[test]
fn update_header_height_and_timestamp() {
    let h = update_header(1_700_000_000_000_000_000);
    assert_eq!(h.get_height(), Some(Height::new(0, 10)));
    let t = h.get_timestamp().unwrap().unwrap();
    assert_eq!(t.nanoseconds(), 1_700_000_000_000_000_000u64);
    let zero = update_header(0);
    assert_eq!(zero.get_timestamp().unwrap().unwrap().nanoseconds(), 0);
}

#[test]
fn update_header_timestamp_out_of_range() {
    let far = 300_000_000_000_000_000_000u128;
    assert_eq!(update_header(far).get_timestamp().unwrap_err(), HeaderError::TimestampOutOfRange);
    let just_over = u64::MAX as u128 + 1;
    assert_eq!(update_header(just_over).get_timestamp().unwrap_err(), HeaderError::TimestampOutOfRange);
    assert!(update_header(u64::MAX as u128).get_timestamp().is_ok());
}

#[test]
fn other_kinds_have_no_height_or_timestamp() {
    for h in [activate_header(), register_header()] {
        assert_eq!(h.get_height(), None);
        assert_eq!(h.get_timestamp().unwrap(), None);
    }
}

#[test]
fn commitment_accessors_through_header() {
    let p = UpdateClientCommitmentProof::new(&commitment(77), Address([8u8; 20]), vec![]);
    let h = UpdateClientHeader::new(p).unwrap();
    assert_eq!(h.signer(), Address([8u8; 20]));
    assert_eq!(h.height(), Height::new(0, 10));
    assert_eq!(h.prev_height(), Some(Height::new(0, 9)));
    assert_eq!(h.prev_state_id(), Some(StateID([2u8; 32])));
    assert_eq!(h.state_id(), StateID([3u8; 32]));
    assert_eq!(h.timestamp_as_u128(), 77);
    assert_eq!(h.validation_params(), &vec![5u8, 5]);
    assert_eq!(h.commitment_proof().signature, Vec::<u8>::new());
    assert_eq!(h.commitment().timestamp(), 77);
}

#[test]
fn constructors_reject_undecodable_proof() {
    let p = UpdateClientCommitmentProof { commitment_bytes: vec![9], signer: Address([0u8; 20]), signature: vec![] };
    assert!(UpdateClientHeader::new(p.clone()).is_none());
    assert!(ActivateHeader::new(vec![], p).is_none());
}

#[test]
fn header_protobuf_envelope_round_trip() {
    for h in [activate_header(), register_header(), update_header(9)] {
        let bytes = h.encode_vec();
        let d = Header::decode_vec(&bytes).unwrap();
        same(&h, &d);
    }
}

#[test]
fn header_protobuf_envelope_differs_from_value() {
    let h = update_header(9);
    let bytes = h.encode_vec();
    assert_ne!(bytes, h.encode_value());
    assert!(bytes.len() > h.encode_value().len() + LCP_HEADER_TYPE_URL.len());
}

#[test]
fn header_protobuf_envelope_malformed() {
    assert_eq!(Header::decode_vec(&[0xff, 0xff, 0xff]).unwrap_err(), HeaderError::MalformedEnvelope);
    assert_eq!(Header::decode_vec(&[]).unwrap_err(), HeaderError::EmptyType);
}

#[test]
fn scenario_init_then_updates() {
    // the first transition has no previous state
    let s0 = StateID([0x10; 32]);
    let init = UpdateClientCommitment::new(None, Height::new(0, 1), s0, 1_000, vec![]);
    let p0 = UpdateClientCommitmentProof::new(&init, Address([1u8; 20]), vec![0xaa]);
    let h0 = UpdateClientHeader::new(p0).unwrap();
    assert_eq!(h0.prev_height(), None);
    assert_eq!(h0.prev_state_id(), None);
    // the next one starts where the first ended, at a greater height
    let s1 = StateID([0x11; 32]);
    let next = UpdateClientCommitment::new(Some((h0.height(), h0.state_id())), Height::new(0, 2), s1, 2_000, vec![]);
    let p1 = UpdateClientCommitmentProof::new(&next, Address([1u8; 20]), vec![0xbb]);
    let h1 = Header::UpdateClient(UpdateClientHeader::new(p1).unwrap());
    match &h1 {
        Header::UpdateClient(u) => {
            assert_eq!(u.prev_height(), Some(Height::new(0, 1)));
            assert_eq!(u.prev_state_id(), Some(s0));
        }
        _ => unreachable!(),
    }
    let head = h1.get_height().unwrap();
    assert!(Height::new(0, 1).lt(&head));
    // a height that does not come after the head is not an advance
    assert!(!Height::new(0, 2).lt(&head));
}

#[test]
fn header_commitment_follows_proof() {
    let h = activate_header();
    match &h {
        Header::Activate(a) => {
            assert_eq!(a.state(), &vec![10u8, 11, 12]);
            assert_eq!(a.commitment().to_bytes(), a.commitment_proof().commitment_bytes);
        }
        _ => unreachable!(),
    }
}
