//! The commitment model: the canonical claim that a light client moved from
//! one state to another, and the signed proof that carries it.
use crate::codec::{
    append_bytes, append_len_prefixed, append_u128, append_u64, enc_bytes, enc_u128, enc_u64,
    lemma_int_encodings, read_len_prefixed, read_u128, read_u64, read_u8,
};
use crate::types::{array_from_slice, Address, Height, StateID};
use vstd::bytes::*;
use vstd::prelude::*;

verus! {

/// What a commitment states, as mathematical values.
pub struct CommitmentModel {
    pub prev: Option<(Height, StateID)>,
    pub new_height: Height,
    pub new_state_id: StateID,
    pub timestamp: u128,
    pub validation_params: Seq<u8>,
}

/// A state transition claim. The previous height and the previous state id
/// are stored as one optional pair, so that one is never present without the
/// other; the fields are private, so a commitment does not change once built.
#[derive(Clone, Debug)]
pub struct UpdateClientCommitment {
    prev: Option<(Height, StateID)>,
    new_height: Height,
    new_state_id: StateID,
    timestamp: u128,
    validation_params: Vec<u8>,
}

impl View for UpdateClientCommitment {
    type V = CommitmentModel;

    closed spec fn view(&self) -> CommitmentModel {
        CommitmentModel {
            prev: self.prev,
            new_height: self.new_height,
            new_state_id: self.new_state_id,
            timestamp: self.timestamp,
            validation_params: self.validation_params@,
        }
    }
}

pub open spec fn enc_height(h: Height) -> Seq<u8> {
    enc_u64(h.revision_number) + enc_u64(h.revision_height)
}

/// A tag byte: 0 where there is no previous state, else 1 followed by the
/// previous height and state id.
pub open spec fn enc_prev(p: Option<(Height, StateID)>) -> Seq<u8> {
    match p {
        None => seq![0u8],
        Some((h, s)) => seq![1u8] + enc_height(h) + s.0@,
    }
}

/// The canonical byte encoding of a commitment, the bytes that get signed.
pub open spec fn encode_commitment(m: CommitmentModel) -> Seq<u8> {
    enc_prev(m.prev) + enc_height(m.new_height) + m.new_state_id.0@ + enc_u128(m.timestamp)
        + enc_bytes(m.validation_params)
}

/// Where the fields after the previous state start.
pub open spec fn body_offset(tag: u8) -> int {
    if tag == 1 {
        49
    } else {
        1
    }
}

/// The framing that every encoded commitment has: a known tag and a total
/// length that agrees with the length prefix of the validation parameters.
pub open spec fn commitment_framed(b: Seq<u8>) -> bool {
    &&& b.len() >= 1
    &&& (b[0] == 0 || b[0] == 1)
    &&& b.len() >= body_offset(b[0]) + 72
    &&& b.len() == body_offset(b[0]) + 72 + spec_u64_from_le_bytes(
        b.subrange(body_offset(b[0]) + 64, body_offset(b[0]) + 72),
    )
}

proof fn lemma_commitment_layout(m: CommitmentModel)
    ensures
        ({
            let b = encode_commitment(m);
            let o = body_offset(b[0]);
            &&& b.len() >= 1
            &&& b[0] == (if m.prev is Some {
                1u8
            } else {
                0u8
            })
            &&& b.len() == o + 72 + m.validation_params.len()
            &&& (m.prev matches Some((h, s)) ==> {
                &&& spec_u64_from_le_bytes(b.subrange(1, 9)) == h.revision_number
                &&& spec_u64_from_le_bytes(b.subrange(9, 17)) == h.revision_height
                &&& b.subrange(17, 49) == s.0@
            })
            &&& spec_u64_from_le_bytes(b.subrange(o, o + 8)) == m.new_height.revision_number
            &&& spec_u64_from_le_bytes(b.subrange(o + 8, o + 16))
                == m.new_height.revision_height
            &&& b.subrange(o + 16, o + 48) == m.new_state_id.0@
            &&& spec_u128_from_le_bytes(b.subrange(o + 48, o + 64)) == m.timestamp
            &&& spec_u64_from_le_bytes(b.subrange(o + 64, o + 72))
                == m.validation_params.len() as u64
            &&& b.subrange(o + 72, b.len() as int) == m.validation_params
        }),
{
    lemma_int_encodings();
    let b = encode_commitment(m);
    let p = enc_prev(m.prev);
    let nh = m.new_height;
    let vp = m.validation_params;
    let o = p.len() as int;
    assert(b == p + enc_u64(nh.revision_number) + enc_u64(nh.revision_height)
        + m.new_state_id.0@ + enc_u128(m.timestamp) + enc_u64(vp.len() as u64) + vp) by {
        assert(b =~= p + enc_u64(nh.revision_number) + enc_u64(nh.revision_height)
            + m.new_state_id.0@ + enc_u128(m.timestamp) + enc_u64(vp.len() as u64) + vp);
    }
    match m.prev {
        Some((h, s)) => {
            assert(p[0] == 1u8);
            assert(p.len() == 49);
            assert(b.subrange(1, 9) =~= enc_u64(h.revision_number));
            assert(b.subrange(9, 17) =~= enc_u64(h.revision_height));
            assert(b.subrange(17, 49) =~= s.0@);
        },
        None => {
            assert(p[0] == 0u8);
        },
    }
    assert(b[0] == p[0]);
    assert(o == body_offset(b[0]));
    assert(b.subrange(o, o + 8) =~= enc_u64(nh.revision_number));
    assert(b.subrange(o + 8, o + 16) =~= enc_u64(nh.revision_height));
    assert(b.subrange(o + 16, o + 48) =~= m.new_state_id.0@);
    assert(b.subrange(o + 48, o + 64) =~= enc_u128(m.timestamp));
    assert(b.subrange(o + 64, o + 72) =~= enc_u64(vp.len() as u64));
    assert(b.subrange(o + 72, b.len() as int) =~= vp);
}

fn append_height(out: &mut Vec<u8>, h: Height)
    ensures
        final(out)@ == old(out)@ + enc_height(h),
{
    append_u64(out, h.revision_number);
    append_u64(out, h.revision_height);
    assert(final(out)@ =~= old(out)@ + enc_height(h));
}

/// Reads a height at `pos`.
fn read_height(b: &[u8], pos: usize) -> (r: Option<(Height, usize)>)
    ensures
        pos + 16 <= b@.len() ==> r == Some(
            (
                Height {
                    revision_number: spec_u64_from_le_bytes(b@.subrange(pos as int, pos + 8)),
                    revision_height: spec_u64_from_le_bytes(b@.subrange(pos + 8, pos + 16)),
                },
                (pos + 16) as usize,
            ),
        ),
        pos + 16 > b@.len() ==> r is None,
{
    proof {
        assert(b@.len() == b.len());
    }
    match read_u64(b, pos) {
        None => None,
        Some((n, p)) => match read_u64(b, p) {
            None => None,
            Some((h, q)) => Some((Height { revision_number: n, revision_height: h }, q)),
        },
    }
}

/// Reads a state id at `pos`.
fn read_state_id(b: &[u8], pos: usize) -> (r: Option<(StateID, usize)>)
    ensures
        pos + 32 <= b@.len() ==> (r matches Some((s, p)) && s.0@ == b@.subrange(
            pos as int,
            pos + 32,
        ) && p == pos + 32),
        pos + 32 > b@.len() ==> r is None,
{
    if pos <= b.len() && 32 <= b.len() - pos {
        let s = vstd::slice::slice_subrange(b, pos, pos + 32);
        match array_from_slice::<32>(s) {
            Some(a) => Some((StateID(a), pos + 32)),
            None => None,
        }
    } else {
        None
    }
}

impl UpdateClientCommitment {
    /// Builds a commitment; the previous height and state id come as one
    /// optional pair.
    pub fn new(
        prev: Option<(Height, StateID)>,
        new_height: Height,
        new_state_id: StateID,
        timestamp: u128,
        validation_params: Vec<u8>,
    ) -> (r: UpdateClientCommitment)
        ensures
            r@ == (CommitmentModel {
                prev,
                new_height,
                new_state_id,
                timestamp,
                validation_params: validation_params@,
            }),
    {
        UpdateClientCommitment { prev, new_height, new_state_id, timestamp, validation_params }
    }

    pub fn prev_height(&self) -> (r: Option<Height>)
        ensures
            r == (match self@.prev {
                Some((h, _)) => Some(h),
                None => None,
            }),
    {
        match self.prev {
            Some((h, _)) => Some(h),
            None => None,
        }
    }

    pub fn prev_state_id(&self) -> (r: Option<StateID>)
        ensures
            r == (match self@.prev {
                Some((_, s)) => Some(s),
                None => None,
            }),
    {
        match self.prev {
            Some((_, s)) => Some(s),
            None => None,
        }
    }

    pub fn new_height(&self) -> (r: Height)
        ensures
            r == self@.new_height,
    {
        self.new_height
    }

    pub fn new_state_id(&self) -> (r: StateID)
        ensures
            r == self@.new_state_id,
    {
        self.new_state_id
    }

    pub fn timestamp(&self) -> (r: u128)
        ensures
            r == self@.timestamp,
    {
        self.timestamp
    }

    pub fn validation_params(&self) -> (r: &Vec<u8>)
        ensures
            r@ == self@.validation_params,
    {
        &self.validation_params
    }

    /// The canonical encoding of the commitment.
    pub fn to_bytes(&self) -> (r: Vec<u8>)
        ensures
            r@ == encode_commitment(self@),
    {
        let mut out: Vec<u8> = Vec::new();
        match self.prev {
            None => {
                out.push(0u8);
            },
            Some((h, s)) => {
                out.push(1u8);
                append_height(&mut out, h);
                append_bytes(&mut out, s.0.as_slice());
            },
        }
        append_height(&mut out, self.new_height);
        append_bytes(&mut out, self.new_state_id.0.as_slice());
        append_u128(&mut out, self.timestamp);
        append_len_prefixed(&mut out, self.validation_params.as_slice());
        assert(out@ =~= encode_commitment(self@));
        out
    }

    fn parse(b: &[u8]) -> (r: Option<UpdateClientCommitment>)
        ensures
            r is Some <==> commitment_framed(b@),
            r matches Some(c) ==> encode_commitment(c@) == b@,
    {
        proof {
            lemma_int_encodings();
            vstd::bytes::lemma_auto_spec_u64_to_from_le_bytes();
            vstd::bytes::lemma_auto_spec_u128_to_from_le_bytes();
        }
        let (tag, pos) = match read_u8(b, 0) {
            Some(x) => x,
            None => return None,
        };
        let (prev, pos) = if tag == 0 {
            (None, pos)
        } else if tag == 1 {
            let (h, p) = match read_height(b, pos) {
                Some(x) => x,
                None => return None,
            };
            let (s, p) = match read_state_id(b, p) {
                Some(x) => x,
                None => return None,
            };
            (Some((h, s)), p)
        } else {
            return None;
        };
        assert(pos == body_offset(tag));
        let (new_height, pos) = match read_height(b, pos) {
            Some(x) => x,
            None => return None,
        };
        let (new_state_id, pos) = match read_state_id(b, pos) {
            Some(x) => x,
            None => return None,
        };
        let (timestamp, pos) = match read_u128(b, pos) {
            Some(x) => x,
            None => return None,
        };
        let (validation_params, pos) = match read_len_prefixed(b, pos) {
            Some(x) => x,
            None => return None,
        };
        if pos != b.len() {
            return None;
        }
        let c = UpdateClientCommitment { prev, new_height, new_state_id, timestamp, validation_params };
        proof {
            let o = body_offset(tag);
            let bs = b@;
            assert(enc_u64(new_height.revision_number) == bs.subrange(o, o + 8));
            assert(enc_u64(new_height.revision_height) == bs.subrange(o + 8, o + 16));
            assert(enc_u128(timestamp) == bs.subrange(o + 48, o + 64));
            assert(enc_u64(c.validation_params@.len() as u64) == bs.subrange(o + 64, o + 72));
            match prev {
                Some((h, s)) => {
                    assert(enc_u64(h.revision_number) == bs.subrange(1, 9));
                    assert(enc_u64(h.revision_height) == bs.subrange(9, 17));
                    assert(enc_prev(prev) =~= bs.subrange(0, 49));
                },
                None => {
                    assert(enc_prev(prev) =~= bs.subrange(0, 1));
                },
            }
            assert(encode_commitment(c@) =~= bs);
        }
        Some(c)
    }

    /// Decodes the canonical encoding of a commitment: succeeds exactly on
    /// the encodings of commitments, and then gives the one encoded.
    pub fn from_bytes(b: &[u8]) -> (r: Option<UpdateClientCommitment>)
        ensures
            r is Some <==> exists|m: CommitmentModel| encode_commitment(m) == b@,
            r matches Some(c) ==> encode_commitment(c@) == b@,
    {
        proof {
            if exists|m: CommitmentModel| encode_commitment(m) == b@ {
                let m = choose|m: CommitmentModel| encode_commitment(m) == b@;
                lemma_commitment_layout(m);
                assert(b@.len() == b.len());
                assert(commitment_framed(b@));
            }
        }
        UpdateClientCommitment::parse(b)
    }
}

/// Two commitments with the same encoding are the same commitment.
pub proof fn lemma_encode_commitment_injective(m1: CommitmentModel, m2: CommitmentModel)
    requires
        encode_commitment(m1) == encode_commitment(m2),
    ensures
        m1 == m2,
{
    lemma_commitment_layout(m1);
    lemma_commitment_layout(m2);
    let b = encode_commitment(m1);
    let o = body_offset(b[0]);
    assert(m1.new_state_id.0 =~= m2.new_state_id.0);
    assert(m1.validation_params =~= m2.validation_params);
    match m1.prev {
        Some((h1, s1)) => {
            let (h2, s2) = m2.prev.unwrap();
            assert(s1.0 =~= s2.0);
        },
        None => {},
    }
}

/// What a commitment proof holds, as mathematical values.
pub struct ProofModel {
    pub commitment_bytes: Seq<u8>,
    pub signer: Seq<u8>,
    pub signature: Seq<u8>,
}

/// A commitment in its canonical encoding, with the address of the key that
/// signed it and the signature.
#[derive(Clone, Debug)]
pub struct UpdateClientCommitmentProof {
    pub commitment_bytes: Vec<u8>,
    pub signer: Address,
    pub signature: Vec<u8>,
}

impl View for UpdateClientCommitmentProof {
    type V = ProofModel;

    open spec fn view(&self) -> ProofModel {
        ProofModel {
            commitment_bytes: self.commitment_bytes@,
            signer: self.signer.0@,
            signature: self.signature@,
        }
    }
}

/// The proof's bytes are the encoding of some commitment.
pub open spec fn proof_model_wf(p: ProofModel) -> bool {
    &&& p.signer.len() == 20
    &&& exists|m: CommitmentModel| encode_commitment(m) == p.commitment_bytes
}

impl UpdateClientCommitmentProof {
    /// Packs `commitment`, in its canonical encoding, with a signer and a
    /// signature over that encoding.
    pub fn new(commitment: &UpdateClientCommitment, signer: Address, signature: Vec<u8>) -> (r:
        UpdateClientCommitmentProof)
        ensures
            r.commitment_bytes@ == encode_commitment(commitment@),
            r.signer == signer,
            r.signature@ == signature@,
            proof_model_wf(r@),
    {
        UpdateClientCommitmentProof { commitment_bytes: commitment.to_bytes(), signer, signature }
    }

    /// The commitment that the proof carries, decoded from its bytes.
    pub fn commitment(&self) -> (r: Option<UpdateClientCommitment>)
        ensures
            r is Some <==> exists|m: CommitmentModel| encode_commitment(m) == self@.commitment_bytes,
            r matches Some(c) ==> encode_commitment(c@) == self@.commitment_bytes,
    {
        UpdateClientCommitment::from_bytes(self.commitment_bytes.as_slice())
    }
}

/// A state commitment (the outcome of a membership or non-membership
/// check) in its encoding, with the signer's address and the signature.
#[derive(Clone, Debug)]
pub struct StateCommitmentProof {
    pub commitment_bytes: Vec<u8>,
    pub signer: Address,
    pub signature: Vec<u8>,
}

/// The previous height and the previous state id of a commitment are present
/// together or absent together.
pub proof fn lemma_prev_fields_paired(c: UpdateClientCommitment)
    ensures
        (match c@.prev {
            Some((h, _)) => Some(h),
            None => None,
        }) is Some <==> (match c@.prev {
            Some((_, s)) => Some(s),
            None => None,
        }) is Some,
{
}

}
