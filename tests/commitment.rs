use lcp_core::commitment::{UpdateClientCommitment, UpdateClientCommitmentProof};
use lcp_core::types::{Address, Height, StateID};

fn sample(prev: Option<(Height, StateID)>) -> UpdateClientCommitment {
    UpdateClientCommitment::new(
        prev,
        Height::new(1, 20),
        StateID([7u8; 32]),
        1_700_000_000_000_000_000u128,
        vec![9, 8, 7],
    )
}

#[test]
fn commitment_prev_fields_present_together() {
    let c = sample(Some((Height::new(1, 10), StateID([3u8; 32]))));
    assert_eq!(c.prev_height(), Some(Height::new(1, 10)));
    assert_eq!(c.prev_state_id(), Some(StateID([3u8; 32])));
    let first = sample(None);
    assert_eq!(first.prev_height(), None);
    assert_eq!(first.prev_state_id(), None);
}

#[test]
fn commitment_accessors() {
    let c = sample(None);
    assert_eq!(c.new_height(), Height::new(1, 20));
    assert_eq!(c.new_state_id(), StateID([7u8; 32]));
    assert_eq!(c.timestamp(), 1_700_000_000_000_000_000u128);
    assert_eq!(c.validation_params(), &vec![9u8, 8, 7]);
}

#[test]
fn commitment_encoding_exact_bytes() {
    let c = UpdateClientCommitment::new(None, Height::new(1, 2), StateID([0xaa; 32]), 5, vec![0xff]);
    let mut expected = vec![0u8];
    expected.extend_from_slice(&[1, 0, 0, 0, 0, 0, 0, 0]);
    expected.extend_from_slice(&[2, 0, 0, 0, 0, 0, 0, 0]);
    expected.extend_from_slice(&[0xaa; 32]);
    expected.extend_from_slice(&[5, 0, 0, 0, 0, 0, 0, 0, 0, 0, 0, 0, 0, 0, 0, 0]);
    expected.extend_from_slice(&[1, 0, 0, 0, 0, 0, 0, 0, 0xff]);
    assert_eq!(c.to_bytes(), expected);
}

#[test]
fn commitment_bytes_round_trip() {
    for prev in [None, Some((Height::new(0, 1), StateID([1u8; 32])))] {
        let c = sample(prev);
        let d = UpdateClientCommitment::from_bytes(&c.to_bytes()).unwrap();
        assert_eq!(d.prev_height(), c.prev_height());
        assert_eq!(d.prev_state_id(), c.prev_state_id());
        assert_eq!(d.new_height(), c.new_height());
        assert_eq!(d.new_state_id(), c.new_state_id());
        assert_eq!(d.timestamp(), c.timestamp());
        assert_eq!(d.validation_params(), c.validation_params());
    }
}

#[test]
fn commitment_decode_rejects_malformed() {
    let bytes = sample(None).to_bytes();
    assert!(UpdateClientCommitment::from_bytes(&[]).is_none());
    assert!(UpdateClientCommitment::from_bytes(&bytes[..bytes.len() - 1]).is_none());
    let mut longer = bytes.clone();
    longer.push(0);
    assert!(UpdateClientCommitment::from_bytes(&longer).is_none());
    let mut bad_tag = bytes.clone();
    bad_tag[0] = 2;
    assert!(UpdateClientCommitment::from_bytes(&bad_tag).is_none());
}

#[test]
fn proof_carries_commitment() {
    let c = sample(None);
    let p = UpdateClientCommitmentProof::new(&c, Address([4u8; 20]), vec![1, 2]);
    assert_eq!(p.commitment_bytes, c.to_bytes());
    assert_eq!(p.commitment().unwrap().new_height(), Height::new(1, 20));
    let broken = UpdateClientCommitmentProof {
        commitment_bytes: vec![1, 2, 3],
        signer: Address([4u8; 20]),
        signature: vec![],
    };
    assert!(broken.commitment().is_none());
}

#[test]
fn height_order() {
    assert!(Height::new(1, 5).lt(&Height::new(1, 6)));
    assert!(Height::new(1, 9).lt(&Height::new(2, 0)));
    assert!(!Height::new(1, 6).lt(&Height::new(1, 6)));
    assert!(!Height::new(2, 0).lt(&Height::new(1, 9)));
}
