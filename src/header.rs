//! The header variants: each carries the evidence for one kind of trusted
//! state transition, and all share one type-tagged byte envelope.
use crate::codec::{
    append_bytes, append_len_prefixed, enc_bytes, lemma_int_encodings, lemma_read_len_prefixed,
    read_len_prefixed, read_u8,
};
use crate::commitment::{
    encode_commitment, lemma_encode_commitment_injective, proof_model_wf, CommitmentModel, ProofModel, UpdateClientCommitment,
    UpdateClientCommitmentProof,
};
use crate::types::{array_from_slice, Address, Height, StateID, Time, LCP_HEADER_TYPE_URL};
use vstd::bytes::*;
use vstd::prelude::*;

verus! {

/// A hardware attestation report endorsed by the attestation service: the
/// report body, the service's signature over it, and its signing certificate.
#[derive(Clone, Debug)]
pub struct AttestationVerificationReport {
    pub avr: Vec<u8>,
    pub signature: Vec<u8>,
    pub signing_cert: Vec<u8>,
}

pub struct ReportModel {
    pub avr: Seq<u8>,
    pub signature: Seq<u8>,
    pub signing_cert: Seq<u8>,
}

impl View for AttestationVerificationReport {
    type V = ReportModel;

    open spec fn view(&self) -> ReportModel {
        ReportModel {
            avr: self.avr@,
            signature: self.signature@,
            signing_cert: self.signing_cert@,
        }
    }
}

/// Moves a light client from initialized to active: the initial state bytes,
/// the commitment proof, and the commitment decoded from that proof.
#[derive(Debug)]
pub struct ActivateHeader(Vec<u8>, UpdateClientCommitmentProof, UpdateClientCommitment);

/// Registers an enclave key through an endorsed attestation report.
#[derive(Clone, Debug)]
pub struct RegisterEnclaveKeyHeader(pub AttestationVerificationReport);

/// Advances a light client: the commitment proof, and the commitment decoded
/// from it.
#[derive(Debug)]
pub struct UpdateClientHeader(UpdateClientCommitmentProof, UpdateClientCommitment);

#[derive(Debug)]
pub enum Header {
    Activate(ActivateHeader),
    RegisterEnclaveKey(RegisterEnclaveKeyHeader),
    UpdateClient(UpdateClientHeader),
}

/// What a header carries, without the commitment that is derived from its
/// proof.
pub enum HeaderModel {
    Activate(Seq<u8>, ProofModel),
    RegisterEnclaveKey(ReportModel),
    UpdateClient(ProofModel),
}

#[derive(Clone, Debug, PartialEq, Eq)]
pub enum HeaderError {
    /// The envelope's type identifier is empty.
    EmptyType,
    /// The envelope's type identifier is not the header's.
    UnknownType(String),
    /// The envelope's value is not the encoding of a header.
    InvalidRawHeader,
    /// The bytes are not the protobuf encoding of an envelope.
    MalformedEnvelope,
    /// The stored timestamp does not fit the time representation.
    TimestampOutOfRange,
}

impl View for Header {
    type V = HeaderModel;

    open spec fn view(&self) -> HeaderModel {
        match self {
            Header::Activate(h) => HeaderModel::Activate(h.state_view(), h.proof_view()),
            Header::RegisterEnclaveKey(h) => HeaderModel::RegisterEnclaveKey(h.0@),
            Header::UpdateClient(h) => HeaderModel::UpdateClient(h.proof_view()),
        }
    }
}

impl ActivateHeader {
    /// The stored commitment is the one that the proof encodes.
    #[verifier::type_invariant]
    pub closed spec fn wf(self) -> bool {
        encode_commitment(self.2@) == self.1.commitment_bytes@
    }

    pub closed spec fn state_view(&self) -> Seq<u8> {
        self.0@
    }

    /// The initial state bytes.
    pub fn state(&self) -> (r: &Vec<u8>)
        ensures
            r@ == self.state_view(),
    {
        &self.0
    }

    /// Builds the header, deriving the commitment from the proof; fails where
    /// the proof's bytes are not the encoding of a commitment.
    pub fn new(state: Vec<u8>, proof: UpdateClientCommitmentProof) -> (r: Option<ActivateHeader>)
        ensures
            r is Some <==> exists|m: CommitmentModel| encode_commitment(m) == proof.commitment_bytes@,
            r matches Some(h) ==> h.wf() && h.state_view() == state@ && h.proof_view() == proof@,
    {
        match proof.commitment() {
            Some(c) => Some(ActivateHeader(state, proof, c)),
            None => None,
        }
    }
}

impl UpdateClientHeader {
    /// The stored commitment is the one that the proof encodes.
    #[verifier::type_invariant]
    pub closed spec fn wf(self) -> bool {
        encode_commitment(self.1@) == self.0.commitment_bytes@
    }

    /// Builds the header, deriving the commitment from the proof; fails where
    /// the proof's bytes are not the encoding of a commitment.
    pub fn new(proof: UpdateClientCommitmentProof) -> (r: Option<UpdateClientHeader>)
        ensures
            r is Some <==> exists|m: CommitmentModel| encode_commitment(m) == proof.commitment_bytes@,
            r matches Some(h) ==> h.wf() && h.proof_view() == proof@,
    {
        match proof.commitment() {
            Some(c) => Some(UpdateClientHeader(proof, c)),
            None => None,
        }
    }
}

/// Read access to the commitment that a header carries. Every field of a
/// transition is read through here, from the commitment derived from the
/// proof.
pub trait Commitment {
    spec fn proof_view(&self) -> ProofModel;

    spec fn commitment_view(&self) -> CommitmentModel;

    fn commitment_proof(&self) -> (r: &UpdateClientCommitmentProof)
        ensures
            r@ == self.proof_view(),
    ;

    fn commitment(&self) -> (r: &UpdateClientCommitment)
        ensures
            r@ == self.commitment_view(),
    ;

    fn signer(&self) -> (r: Address)
        ensures
            r.0@ == self.proof_view().signer,
    {
        self.commitment_proof().signer
    }

    fn height(&self) -> (r: Height)
        ensures
            r == self.commitment_view().new_height,
    {
        self.commitment().new_height()
    }

    fn prev_height(&self) -> (r: Option<Height>)
        ensures
            r == (match self.commitment_view().prev {
                Some((h, _)) => Some(h),
                None => None,
            }),
    {
        self.commitment().prev_height()
    }

    fn prev_state_id(&self) -> (r: Option<StateID>)
        ensures
            r == (match self.commitment_view().prev {
                Some((_, s)) => Some(s),
                None => None,
            }),
    {
        self.commitment().prev_state_id()
    }

    fn state_id(&self) -> (r: StateID)
        ensures
            r == self.commitment_view().new_state_id,
    {
        self.commitment().new_state_id()
    }

    fn timestamp_as_u128(&self) -> (r: u128)
        ensures
            r == self.commitment_view().timestamp,
    {
        self.commitment().timestamp()
    }

    fn validation_params(&self) -> (r: &Vec<u8>)
        ensures
            r@ == self.commitment_view().validation_params,
    {
        self.commitment().validation_params()
    }
}

impl Commitment for ActivateHeader {
    closed spec fn proof_view(&self) -> ProofModel {
        self.1@
    }

    closed spec fn commitment_view(&self) -> CommitmentModel {
        self.2@
    }

    fn commitment_proof(&self) -> (r: &UpdateClientCommitmentProof) {
        &self.1
    }

    fn commitment(&self) -> (r: &UpdateClientCommitment) {
        &self.2
    }
}

impl Commitment for UpdateClientHeader {
    closed spec fn proof_view(&self) -> ProofModel {
        self.0@
    }

    closed spec fn commitment_view(&self) -> CommitmentModel {
        self.1@
    }

    fn commitment_proof(&self) -> (r: &UpdateClientCommitmentProof) {
        &self.0
    }

    fn commitment(&self) -> (r: &UpdateClientCommitment) {
        &self.1
    }
}

impl Header {
    /// The commitment of each commitment-bearing variant is the one that its
    /// proof encodes.
    pub open spec fn wf(&self) -> bool {
        match self {
            Header::Activate(h) => h.wf(),
            Header::RegisterEnclaveKey(_) => true,
            Header::UpdateClient(h) => h.wf(),
        }
    }

    pub open spec fn get_height_spec(&self) -> Option<Height> {
        match self {
            Header::UpdateClient(h) => Some(h.commitment_view().new_height),
            _ => None,
        }
    }

    /// The new height of an update header; no height for the other kinds.
    pub fn get_height(&self) -> (r: Option<Height>)
        ensures
            r == self.get_height_spec(),
    {
        match self {
            Header::UpdateClient(h) => Some(h.height()),
            _ => None,
        }
    }

    /// The timestamp of an update header; no time for the other kinds. Fails
    /// where the stored nanosecond count does not fit the time representation.
    pub fn get_timestamp(&self) -> (r: Result<Option<Time>, HeaderError>)
        ensures
            match self {
                Header::UpdateClient(h) => if h.commitment_view().timestamp <= u64::MAX {
                    r matches Ok(Some(t)) && t.spec_nanoseconds() == h.commitment_view().timestamp
                } else {
                    r == Err::<Option<Time>, HeaderError>(HeaderError::TimestampOutOfRange)
                },
                _ => r == Ok::<Option<Time>, HeaderError>(None),
            },
    {
        match self {
            Header::UpdateClient(h) => match Time::from_nanoseconds(h.timestamp_as_u128()) {
                Some(t) => Ok(Some(t)),
                None => Err(HeaderError::TimestampOutOfRange),
            },
            _ => Ok(None),
        }
    }
}

pub open spec fn enc_proof(p: ProofModel) -> Seq<u8> {
    enc_bytes(p.commitment_bytes) + p.signer + enc_bytes(p.signature)
}

pub open spec fn enc_report(r: ReportModel) -> Seq<u8> {
    enc_bytes(r.avr) + enc_bytes(r.signature) + enc_bytes(r.signing_cert)
}

/// The canonical encoding of a header: a variant tag (0 activate, 1 register
/// enclave key, 2 update), then the variant's fields. The derived commitment
/// is not part of it.
pub open spec fn encode_header(h: HeaderModel) -> Seq<u8> {
    match h {
        HeaderModel::Activate(st, p) => seq![0u8] + enc_bytes(st) + enc_proof(p),
        HeaderModel::RegisterEnclaveKey(r) => seq![1u8] + enc_report(r),
        HeaderModel::UpdateClient(p) => seq![2u8] + enc_proof(p),
    }
}

/// A header model whose proof, if any, encodes a commitment.
pub open spec fn header_model_wf(h: HeaderModel) -> bool {
    match h {
        HeaderModel::Activate(_, p) => proof_model_wf(p),
        HeaderModel::RegisterEnclaveKey(_) => true,
        HeaderModel::UpdateClient(p) => proof_model_wf(p),
    }
}

spec fn sp_bytes(b: Seq<u8>, pos: int) -> Option<(Seq<u8>, int)> {
    if 0 <= pos && pos + 8 <= b.len() && pos + 8 + spec_u64_from_le_bytes(
        b.subrange(pos, pos + 8),
    ) <= b.len() {
        let k = spec_u64_from_le_bytes(b.subrange(pos, pos + 8)) as int;
        Some((b.subrange(pos + 8, pos + 8 + k), pos + 8 + k))
    } else {
        None
    }
}

spec fn sp_proof(b: Seq<u8>, pos: int) -> Option<(ProofModel, int)> {
    match sp_bytes(b, pos) {
        None => None,
        Some((cb, p1)) => if p1 + 20 <= b.len() {
            match sp_bytes(b, p1 + 20) {
                None => None,
                Some((sig, p2)) => Some(
                    (
                        ProofModel {
                            commitment_bytes: cb,
                            signer: b.subrange(p1, p1 + 20),
                            signature: sig,
                        },
                        p2,
                    ),
                ),
            }
        } else {
            None
        },
    }
}

spec fn sp_report(b: Seq<u8>, pos: int) -> Option<(ReportModel, int)> {
    match sp_bytes(b, pos) {
        None => None,
        Some((avr, p1)) => match sp_bytes(b, p1) {
            None => None,
            Some((sig, p2)) => match sp_bytes(b, p2) {
                None => None,
                Some((cert, p3)) => Some(
                    (ReportModel { avr, signature: sig, signing_cert: cert }, p3),
                ),
            },
        },
    }
}

spec fn sp_header(b: Seq<u8>) -> Option<HeaderModel> {
    if b.len() < 1 {
        None
    } else if b[0] == 0 {
        match sp_bytes(b, 1) {
            None => None,
            Some((st, p1)) => match sp_proof(b, p1) {
                Some((p, p2)) => if p2 == b.len() {
                    Some(HeaderModel::Activate(st, p))
                } else {
                    None
                },
                None => None,
            },
        }
    } else if b[0] == 1 {
        match sp_report(b, 1) {
            Some((r, p1)) => if p1 == b.len() {
                Some(HeaderModel::RegisterEnclaveKey(r))
            } else {
                None
            },
            None => None,
        }
    } else if b[0] == 2 {
        match sp_proof(b, 1) {
            Some((p, p1)) => if p1 == b.len() {
                Some(HeaderModel::UpdateClient(p))
            } else {
                None
            },
            None => None,
        }
    } else {
        None
    }
}

proof fn lemma_sp_bytes_complete(b: Seq<u8>, pos: int, v: Seq<u8>)
    requires
        0 <= pos,
        pos + enc_bytes(v).len() <= b.len(),
        b.len() <= u64::MAX,
        b.subrange(pos, pos + enc_bytes(v).len()) == enc_bytes(v),
    ensures
        sp_bytes(b, pos) == Some((v, pos + enc_bytes(v).len())),
{
    lemma_int_encodings();
    lemma_read_len_prefixed(b, pos, v);
    assert(enc_bytes(v).len() == 8 + v.len());
}

proof fn lemma_sp_bytes_sound(b: Seq<u8>, pos: int)
    requires
        sp_bytes(b, pos) is Some,
    ensures
        ({
            let (v, p) = sp_bytes(b, pos).unwrap();
            pos <= p <= b.len() && b.subrange(pos, p) == enc_bytes(v)
        }),
{
    lemma_auto_spec_u64_to_from_le_bytes();
    let (v, p) = sp_bytes(b, pos).unwrap();
    let s = b.subrange(pos, pos + 8);
    assert(v.len() as u64 == spec_u64_from_le_bytes(s));
    assert(spec_u64_to_le_bytes(spec_u64_from_le_bytes(s)) == s);
    assert(b.subrange(pos, p) =~= enc_bytes(v));
}

proof fn lemma_sp_proof_complete(b: Seq<u8>, pos: int, pm: ProofModel)
    requires
        0 <= pos,
        pm.signer.len() == 20,
        pos + enc_proof(pm).len() <= b.len(),
        b.len() <= u64::MAX,
        b.subrange(pos, pos + enc_proof(pm).len()) == enc_proof(pm),
    ensures
        sp_proof(b, pos) == Some((pm, pos + enc_proof(pm).len())),
{
    let e1 = enc_bytes(pm.commitment_bytes);
    let e3 = enc_bytes(pm.signature);
    let n1 = e1.len() as int;
    let n3 = e3.len() as int;
    let p1 = pos + n1;
    assert(b.subrange(pos, p1) =~= e1) by {
        assert(b.subrange(pos, p1) =~= b.subrange(pos, pos + enc_proof(pm).len()).subrange(0, n1));
    }
    lemma_sp_bytes_complete(b, pos, pm.commitment_bytes);
    assert(b.subrange(p1, p1 + 20) =~= pm.signer) by {
        assert(b.subrange(p1, p1 + 20) =~= b.subrange(pos, pos + enc_proof(pm).len()).subrange(n1, n1 + 20));
    }
    assert(b.subrange(p1 + 20, p1 + 20 + n3) =~= e3) by {
        assert(b.subrange(p1 + 20, p1 + 20 + n3) =~= b.subrange(pos, pos + enc_proof(pm).len()).subrange(n1 + 20, enc_proof(pm).len() as int));
    }
    lemma_sp_bytes_complete(b, p1 + 20, pm.signature);
}

proof fn lemma_sp_proof_sound(b: Seq<u8>, pos: int)
    requires
        sp_proof(b, pos) is Some,
    ensures
        ({
            let (pm, p) = sp_proof(b, pos).unwrap();
            pos <= p <= b.len() && b.subrange(pos, p) == enc_proof(pm) && pm.signer.len() == 20
        }),
{
    let (cb, p1) = sp_bytes(b, pos).unwrap();
    lemma_sp_bytes_sound(b, pos);
    lemma_sp_bytes_sound(b, p1 + 20);
    let (pm, p) = sp_proof(b, pos).unwrap();
    assert(b.subrange(pos, p) =~= b.subrange(pos, p1) + b.subrange(p1, p1 + 20) + b.subrange(p1 + 20, p));
}

proof fn lemma_sp_report_complete(b: Seq<u8>, pos: int, r: ReportModel)
    requires
        0 <= pos,
        pos + enc_report(r).len() <= b.len(),
        b.len() <= u64::MAX,
        b.subrange(pos, pos + enc_report(r).len()) == enc_report(r),
    ensures
        sp_report(b, pos) == Some((r, pos + enc_report(r).len())),
{
    let e1 = enc_bytes(r.avr);
    let e2 = enc_bytes(r.signature);
    let e3 = enc_bytes(r.signing_cert);
    let n1 = e1.len() as int;
    let n2 = e2.len() as int;
    let n3 = e3.len() as int;
    let all = b.subrange(pos, pos + enc_report(r).len());
    assert(b.subrange(pos, pos + n1) =~= all.subrange(0, n1));
    assert(all.subrange(0, n1) =~= e1);
    lemma_sp_bytes_complete(b, pos, r.avr);
    let p1 = pos + n1;
    assert(b.subrange(p1, p1 + n2) =~= all.subrange(n1, n1 + n2));
    assert(all.subrange(n1, n1 + n2) =~= e2);
    lemma_sp_bytes_complete(b, p1, r.signature);
    let p2 = p1 + n2;
    assert(b.subrange(p2, p2 + n3) =~= all.subrange(n1 + n2, all.len() as int));
    assert(all.subrange(n1 + n2, all.len() as int) =~= e3);
    lemma_sp_bytes_complete(b, p2, r.signing_cert);
}

proof fn lemma_sp_report_sound(b: Seq<u8>, pos: int)
    requires
        sp_report(b, pos) is Some,
    ensures
        ({
            let (r, p) = sp_report(b, pos).unwrap();
            pos <= p <= b.len() && b.subrange(pos, p) == enc_report(r)
        }),
{
    let (avr, p1) = sp_bytes(b, pos).unwrap();
    let (sig, p2) = sp_bytes(b, p1).unwrap();
    lemma_sp_bytes_sound(b, pos);
    lemma_sp_bytes_sound(b, p1);
    lemma_sp_bytes_sound(b, p2);
    let (r, p) = sp_report(b, pos).unwrap();
    assert(b.subrange(pos, p) =~= b.subrange(pos, p1) + b.subrange(p1, p2) + b.subrange(p2, p));
}

/// Every header model that fits in memory parses back from its encoding.
proof fn lemma_sp_header_complete(hm: HeaderModel)
    requires
        encode_header(hm).len() <= u64::MAX,
        match hm {
            HeaderModel::Activate(_, p) => p.signer.len() == 20,
            HeaderModel::RegisterEnclaveKey(_) => true,
            HeaderModel::UpdateClient(p) => p.signer.len() == 20,
        },
    ensures
        sp_header(encode_header(hm)) == Some(hm),
{
    let b = encode_header(hm);
    match hm {
        HeaderModel::Activate(st, p) => {
            let e1 = enc_bytes(st);
            let n1 = e1.len() as int;
            assert(b.subrange(1, 1 + n1) =~= e1);
            lemma_sp_bytes_complete(b, 1, st);
            assert(b.subrange(1 + n1, b.len() as int) =~= enc_proof(p));
            lemma_sp_proof_complete(b, 1 + n1, p);
        },
        HeaderModel::RegisterEnclaveKey(r) => {
            assert(b.subrange(1, b.len() as int) =~= enc_report(r));
            lemma_sp_report_complete(b, 1, r);
        },
        HeaderModel::UpdateClient(p) => {
            assert(b.subrange(1, b.len() as int) =~= enc_proof(p));
            lemma_sp_proof_complete(b, 1, p);
        },
    }
}

/// What parses is the encoding of what it parses to.
proof fn lemma_sp_header_sound(b: Seq<u8>)
    requires
        sp_header(b) is Some,
    ensures
        encode_header(sp_header(b).unwrap()) == b,
        match sp_header(b).unwrap() {
            HeaderModel::Activate(_, p) => p.signer.len() == 20,
            HeaderModel::RegisterEnclaveKey(_) => true,
            HeaderModel::UpdateClient(p) => p.signer.len() == 20,
        },
{
    if b[0] == 0 {
        let (st, p1) = sp_bytes(b, 1).unwrap();
        lemma_sp_bytes_sound(b, 1);
        lemma_sp_proof_sound(b, p1);
        assert(b =~= seq![b[0]] + b.subrange(1, p1) + b.subrange(p1, b.len() as int));
    } else if b[0] == 1 {
        lemma_sp_report_sound(b, 1);
        assert(b =~= seq![b[0]] + b.subrange(1, b.len() as int));
    } else {
        lemma_sp_proof_sound(b, 1);
        assert(b =~= seq![b[0]] + b.subrange(1, b.len() as int));
    }
}

fn parse_bytes(b: &[u8], pos: usize) -> (r: Option<(Vec<u8>, usize)>)
    ensures
        match r {
            Some((v, p)) => sp_bytes(b@, pos as int) == Some((v@, p as int)),
            None => sp_bytes(b@, pos as int) is None,
        },
{
    read_len_prefixed(b, pos)
}

fn parse_proof(b: &[u8], pos: usize) -> (r: Option<(UpdateClientCommitmentProof, usize)>)
    ensures
        match r {
            Some((v, p)) => sp_proof(b@, pos as int) == Some((v@, p as int)),
            None => sp_proof(b@, pos as int) is None,
        },
{
    let (commitment_bytes, p1) = match parse_bytes(b, pos) {
        Some(x) => x,
        None => return None,
    };
    if p1 > b.len() || 20 > b.len() - p1 {
        return None;
    }
    let s = vstd::slice::slice_subrange(b, p1, p1 + 20);
    let signer = match array_from_slice::<20>(s) {
        Some(a) => Address(a),
        None => return None,
    };
    let (signature, p2) = match parse_bytes(b, p1 + 20) {
        Some(x) => x,
        None => return None,
    };
    let r = UpdateClientCommitmentProof { commitment_bytes, signer, signature };
    assert(sp_proof(b@, pos as int) == Some((r@, p2 as int)));
    Some((r, p2))
}

fn parse_report(b: &[u8], pos: usize) -> (r: Option<(AttestationVerificationReport, usize)>)
    ensures
        match r {
            Some((v, p)) => sp_report(b@, pos as int) == Some((v@, p as int)),
            None => sp_report(b@, pos as int) is None,
        },
{
    let (avr, p1) = match parse_bytes(b, pos) {
        Some(x) => x,
        None => return None,
    };
    let (signature, p2) = match parse_bytes(b, p1) {
        Some(x) => x,
        None => return None,
    };
    let (signing_cert, p3) = match parse_bytes(b, p2) {
        Some(x) => x,
        None => return None,
    };
    Some((AttestationVerificationReport { avr, signature, signing_cert }, p3))
}

fn append_proof(out: &mut Vec<u8>, p: &UpdateClientCommitmentProof)
    ensures
        final(out)@ == old(out)@ + enc_proof(p@),
{
    append_len_prefixed(out, p.commitment_bytes.as_slice());
    append_bytes(out, p.signer.0.as_slice());
    append_len_prefixed(out, p.signature.as_slice());
    assert(final(out)@ =~= old(out)@ + enc_proof(p@));
}

impl Header {
    /// The canonical encoding of the header, without its derived commitment.
    pub fn encode_value(&self) -> (r: Vec<u8>)
        ensures
            r@ == encode_header(self@),
            self.wf(),
    {
        let mut out: Vec<u8> = Vec::new();
        match self {
            Header::Activate(h) => {
                proof {
                    use_type_invariant(h);
                }
                out.push(0u8);
                append_len_prefixed(&mut out, h.0.as_slice());
                append_proof(&mut out, &h.1);
            },
            Header::RegisterEnclaveKey(h) => {
                out.push(1u8);
                append_len_prefixed(&mut out, h.0.avr.as_slice());
                append_len_prefixed(&mut out, h.0.signature.as_slice());
                append_len_prefixed(&mut out, h.0.signing_cert.as_slice());
            },
            Header::UpdateClient(h) => {
                proof {
                    use_type_invariant(h);
                }
                out.push(2u8);
                append_proof(&mut out, &h.0);
            },
        }
        assert(out@ =~= encode_header(self@));
        out
    }

    fn parse(b: &[u8]) -> (r: Option<Header>)
        ensures
            match r {
                Some(h) => sp_header(b@) == Some(h@) && h.wf(),
                None => sp_header(b@) is None || match sp_header(b@).unwrap() {
                    HeaderModel::Activate(_, p) => !proof_model_wf(p),
                    HeaderModel::RegisterEnclaveKey(_) => false,
                    HeaderModel::UpdateClient(p) => !proof_model_wf(p),
                },
            },
    {
        let (tag, pos) = match read_u8(b, 0) {
            Some(x) => x,
            None => return None,
        };
        if tag == 0 {
            let (st, p1) = match parse_bytes(b, pos) {
                Some(x) => x,
                None => return None,
            };
            let (proof, p2) = match parse_proof(b, p1) {
                Some(x) => x,
                None => return None,
            };
            if p2 != b.len() {
                return None;
            }
            match ActivateHeader::new(st, proof) {
                Some(h) => Some(Header::Activate(h)),
                None => None,
            }
        } else if tag == 1 {
            let (report, p1) = match parse_report(b, pos) {
                Some(x) => x,
                None => return None,
            };
            if p1 != b.len() {
                return None;
            }
            Some(Header::RegisterEnclaveKey(RegisterEnclaveKeyHeader(report)))
        } else if tag == 2 {
            let (proof, p1) = match parse_proof(b, pos) {
                Some(x) => x,
                None => return None,
            };
            if p1 != b.len() {
                return None;
            }
            match UpdateClientHeader::new(proof) {
                Some(h) => Some(Header::UpdateClient(h)),
                None => None,
            }
        } else {
            None
        }
    }

    /// Decodes the canonical encoding of a header and derives its commitment
    /// from its proof. Succeeds exactly on the encodings of headers whose
    /// proofs hold a commitment, and then gives the header encoded.
    pub fn decode_value(b: &[u8]) -> (r: Result<Header, HeaderError>)
        ensures
            r is Ok <==> exists|hm: HeaderModel| header_model_wf(hm) && encode_header(hm) == b@,
            r matches Ok(h) ==> h.wf() && encode_header(h@) == b@,
            r matches Err(e) ==> e == HeaderError::InvalidRawHeader,
    {
        let r = Header::parse(b);
        proof {
            assert(b@.len() == b.len());
            if exists|hm: HeaderModel| header_model_wf(hm) && encode_header(hm) == b@ {
                let hm = choose|hm: HeaderModel| header_model_wf(hm) && encode_header(hm) == b@;
                lemma_sp_header_complete(hm);
            }
            if sp_header(b@) is Some {
                lemma_sp_header_sound(b@);
            }
        }
        match r {
            Some(h) => Ok(h),
            None => Err(HeaderError::InvalidRawHeader),
        }
    }
}

/// What reading an envelope with type identifier `t` and value `v` gives.
pub open spec fn envelope_result(t: Seq<char>, v: Seq<u8>, r: Result<Header, HeaderError>) -> bool {
    &&& t.len() == 0 ==> (r matches Err(HeaderError::EmptyType))
    &&& t.len() != 0 && t != LCP_HEADER_TYPE_URL@ ==> (r matches Err(HeaderError::UnknownType(u))
        && u@ == t)
    &&& t == LCP_HEADER_TYPE_URL@ ==> {
        &&& r is Ok <==> exists|hm: HeaderModel| header_model_wf(hm) && encode_header(hm) == v
        &&& (r matches Ok(h) ==> h.wf() && encode_header(h@) == v)
        &&& (r matches Err(e) ==> e == HeaderError::InvalidRawHeader)
    }
}

/// The protobuf encoding of an `Any` with these fields.
pub uninterp spec fn any_wire_bytes(type_url: Seq<char>, value: Seq<u8>) -> Seq<u8>;

/// The fields of the `Any` that protobuf bytes decode to, if they decode.
pub uninterp spec fn any_from_wire_bytes(b: Seq<u8>) -> Option<(Seq<char>, Seq<u8>)>;

/// Relies on prost's `Message::encode_to_vec` for `Any`: the protobuf
/// encoding of its two fields (tags 1 and 2), which depends on them alone and
/// which prost's `decode` reads back into the same two fields.
#[verifier::external_body]
fn encode_any(a: &prost_types::Any) -> (r: Vec<u8>)
    ensures
        r@ == any_wire_bytes(a.type_url@, a.value@),
        any_from_wire_bytes(r@) == Some((a.type_url@, a.value@)),
{
    prost::Message::encode_to_vec(a)
}

/// Relies on prost's `Message::decode` for `Any`: whether the bytes decode,
/// and to which fields, depends on the bytes alone.
#[verifier::external_body]
fn decode_any(b: &[u8]) -> (r: Option<prost_types::Any>)
    ensures
        r is Some <==> any_from_wire_bytes(b@) is Some,
        r matches Some(a) ==> any_from_wire_bytes(b@) == Some((a.type_url@, a.value@)),
{
    <prost_types::Any as prost::Message>::decode(b).ok()
}

impl Header {
    /// The header in the protobuf encoding of its type-tagged envelope.
    pub fn encode_vec(&self) -> (r: Vec<u8>)
        ensures
            r@ == any_wire_bytes(LCP_HEADER_TYPE_URL@, encode_header(self@)),
            any_from_wire_bytes(r@) == Some((LCP_HEADER_TYPE_URL@, encode_header(self@))),
            self.wf(),
    {
        encode_any(&self.to_any())
    }

    /// Reads a header out of the protobuf encoding of its envelope: bytes
    /// that are no envelope are refused, and an envelope is read as
    /// `from_any` reads it.
    pub fn decode_vec(b: &[u8]) -> (r: Result<Header, HeaderError>)
        ensures
            match any_from_wire_bytes(b@) {
                None => r matches Err(HeaderError::MalformedEnvelope),
                Some((t, v)) => envelope_result(t, v, r),
            },
    {
        match decode_any(b) {
            None => Err(HeaderError::MalformedEnvelope),
            Some(any) => Header::from_any(&any),
        }
    }

    /// The commitment that the header carries, if its kind carries one.
    pub open spec fn commitment_model(&self) -> Option<CommitmentModel> {
        match self {
            Header::Activate(h) => Some(h.commitment_view()),
            Header::RegisterEnclaveKey(_) => None,
            Header::UpdateClient(h) => Some(h.commitment_view()),
        }
    }

    /// The type-tagged envelope of the header: the header type identifier
    /// and the header's canonical encoding.
    pub fn to_any(&self) -> (r: prost_types::Any)
        ensures
            r.type_url@ == LCP_HEADER_TYPE_URL@,
            r.value@ == encode_header(self@),
            self.wf(),
    {
        prost_types::Any { type_url: LCP_HEADER_TYPE_URL.to_owned(), value: self.encode_value() }
    }

    /// Reads a header out of its envelope. An empty type identifier and a
    /// foreign one are refused with errors of their own; under the header's
    /// identifier the value is decoded as `decode_value` does.
    pub fn from_any(any: &prost_types::Any) -> (r: Result<Header, HeaderError>)
        ensures
            envelope_result(any.type_url@, any.value@, r),
    {
        proof {
            reveal_strlit("/ibc.lcp.Header");
            assert(LCP_HEADER_TYPE_URL@.len() != 0);
        }
        if any.type_url.as_str().is_empty() {
            return Err(HeaderError::EmptyType);
        }
        let url = LCP_HEADER_TYPE_URL.to_owned();
        if any.type_url == url {
            Header::decode_value(any.value.as_slice())
        } else {
            Err(HeaderError::UnknownType(any.type_url.clone()))
        }
    }
}

/// Encoding then decoding gives back the header. A well-formed header is
/// accepted by `decode_value` (its model is well formed), and any well-formed
/// header with the same encoding, such as the one decoded, has the same
/// fields and derives the same commitment. With the contracts of
/// `encode_vec` and `decode_vec` the same holds of the protobuf envelope.
pub proof fn lemma_header_round_trip(h: Header, d: Header)
    requires
        h.wf(),
        d.wf(),
        encode_header(d@) == encode_header(h@),
        encode_header(h@).len() <= u64::MAX,
    ensures
        header_model_wf(h@),
        d@ == h@,
        d.commitment_model() == h.commitment_model(),
{
    match h {
        Header::Activate(a) => {
            assert(a.1.signer.0@.len() == 20);
            assert(encode_commitment(a.2@) == a.1.commitment_bytes@);
        },
        Header::RegisterEnclaveKey(_) => {},
        Header::UpdateClient(u) => {
            assert(u.0.signer.0@.len() == 20);
            assert(encode_commitment(u.1@) == u.0.commitment_bytes@);
        },
    }
    match d {
        Header::Activate(a) => {
            assert(a.1.signer.0@.len() == 20);
        },
        Header::RegisterEnclaveKey(_) => {},
        Header::UpdateClient(u) => {
            assert(u.0.signer.0@.len() == 20);
        },
    }
    lemma_sp_header_complete(h@);
    lemma_sp_header_complete(d@);
    match (h, d) {
        (Header::Activate(a), Header::Activate(b)) => {
            lemma_encode_commitment_injective(a.2@, b.2@);
        },
        (Header::UpdateClient(a), Header::UpdateClient(b)) => {
            lemma_encode_commitment_injective(a.1@, b.1@);
        },
        _ => {},
    }
}

/// The height and the timestamp that an update header exposes are those of
/// the commitment that its proof encodes.
pub proof fn lemma_update_header_consistent(h: UpdateClientHeader, m: CommitmentModel)
    requires
        h.wf(),
        encode_commitment(m) == h.proof_view().commitment_bytes,
    ensures
        Header::UpdateClient(h).get_height_spec() == Some(m.new_height),
        h.commitment_view().timestamp == m.timestamp,
{
    lemma_encode_commitment_injective(h.1@, m);
}

}
