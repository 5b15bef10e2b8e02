//! Byte-level building blocks of the canonical encodings: fixed-width
//! little-endian integers, fixed-length byte strings, and byte strings
//! prefixed by their length.
use vstd::bytes::*;
use vstd::prelude::*;
use vstd::slice::slice_subrange;

verus! {

/// Eight little-endian bytes.
pub open spec fn enc_u64(x: u64) -> Seq<u8> {
    spec_u64_to_le_bytes(x)
}

/// Sixteen little-endian bytes.
pub open spec fn enc_u128(x: u128) -> Seq<u8> {
    spec_u128_to_le_bytes(x)
}

/// A byte string preceded by its length as eight little-endian bytes.
pub open spec fn enc_bytes(b: Seq<u8>) -> Seq<u8> {
    enc_u64(b.len() as u64) + b
}

pub proof fn lemma_int_encodings()
    ensures
        forall|x: u64| #[trigger] enc_u64(x).len() == 8,
        forall|x: u64| #[trigger] spec_u64_from_le_bytes(enc_u64(x)) == x,
        forall|x: u128| #[trigger] enc_u128(x).len() == 16,
        forall|x: u128| #[trigger] spec_u128_from_le_bytes(enc_u128(x)) == x,
{
    lemma_auto_spec_u64_to_from_le_bytes();
    lemma_auto_spec_u128_to_from_le_bytes();
    assert forall|x: u64| #[trigger] spec_u64_from_le_bytes(enc_u64(x)) == x by {
        assert(spec_u64_to_le_bytes(x).len() == 8);
    }
    assert forall|x: u128| #[trigger] spec_u128_from_le_bytes(enc_u128(x)) == x by {
        assert(spec_u128_to_le_bytes(x).len() == 16);
    }
}

/// Appends `b` to `out`.
pub fn append_bytes(out: &mut Vec<u8>, b: &[u8])
    ensures
        final(out)@ == old(out)@ + b@,
{
    let mut i: usize = 0;
    while i < b.len()
        invariant
            i <= b@.len(),
            out@ == old(out)@ + b@.subrange(0, i as int),
        decreases b@.len() - i,
    {
        out.push(b[i]);
        i = i + 1;
        assert(out@ =~= old(out)@ + b@.subrange(0, i as int));
    }
    assert(b@.subrange(0, b@.len() as int) =~= b@);
}

/// Appends the eight little-endian bytes of `x`.
pub fn append_u64(out: &mut Vec<u8>, x: u64)
    ensures
        final(out)@ == old(out)@ + enc_u64(x),
{
    let b = u64_to_le_bytes(x);
    append_bytes(out, b.as_slice());
}

/// Appends the sixteen little-endian bytes of `x`.
pub fn append_u128(out: &mut Vec<u8>, x: u128)
    ensures
        final(out)@ == old(out)@ + enc_u128(x),
{
    let b = u128_to_le_bytes(x);
    append_bytes(out, b.as_slice());
}

/// Appends the length of `b`, then `b`.
pub fn append_len_prefixed(out: &mut Vec<u8>, b: &[u8])
    ensures
        final(out)@ == old(out)@ + enc_bytes(b@),
{
    append_u64(out, b.len() as u64);
    append_bytes(out, b);
    assert(final(out)@ =~= old(out)@ + enc_bytes(b@));
}

/// Reads one byte at `pos`.
pub fn read_u8(b: &[u8], pos: usize) -> (r: Option<(u8, usize)>)
    ensures
        pos < b@.len() ==> r == Some((b@[pos as int], (pos + 1) as usize)),
        pos >= b@.len() ==> r is None,
{
    if pos < b.len() {
        Some((b[pos], pos + 1))
    } else {
        None
    }
}

/// Reads eight little-endian bytes at `pos`.
pub fn read_u64(b: &[u8], pos: usize) -> (r: Option<(u64, usize)>)
    ensures
        pos + 8 <= b@.len() ==> r == Some(
            (spec_u64_from_le_bytes(b@.subrange(pos as int, pos + 8)), (pos + 8) as usize),
        ),
        pos + 8 > b@.len() ==> r is None,
{
    if pos <= b.len() && 8 <= b.len() - pos {
        let s = slice_subrange(b, pos, pos + 8);
        Some((u64_from_le_bytes(s), pos + 8))
    } else {
        None
    }
}

/// Reads sixteen little-endian bytes at `pos`.
pub fn read_u128(b: &[u8], pos: usize) -> (r: Option<(u128, usize)>)
    ensures
        pos + 16 <= b@.len() ==> r == Some(
            (spec_u128_from_le_bytes(b@.subrange(pos as int, pos + 16)), (pos + 16) as usize),
        ),
        pos + 16 > b@.len() ==> r is None,
{
    if pos <= b.len() && 16 <= b.len() - pos {
        let s = slice_subrange(b, pos, pos + 16);
        Some((u128_from_le_bytes(s), pos + 16))
    } else {
        None
    }
}

/// Reads the `n` bytes at `pos`.
pub fn read_fixed(b: &[u8], pos: usize, n: usize) -> (r: Option<(Vec<u8>, usize)>)
    ensures
        pos + n <= b@.len() ==> (r matches Some((v, p)) && v@ == b@.subrange(pos as int, pos + n)
            && p == pos + n),
        pos + n > b@.len() ==> r is None,
{
    if pos <= b.len() && n <= b.len() - pos {
        let mut v: Vec<u8> = Vec::new();
        let mut i: usize = 0;
        while i < n
            invariant
                pos + n <= b.len(),
                i <= n,
                v@ == b@.subrange(pos as int, pos + i),
            decreases n - i,
        {
            v.push(b[pos + i]);
            i = i + 1;
            assert(v@ =~= b@.subrange(pos as int, pos + i));
        }
        Some((v, pos + n))
    } else {
        None
    }
}

/// Reads a byte string preceded by its length at `pos`.
pub fn read_len_prefixed(b: &[u8], pos: usize) -> (r: Option<(Vec<u8>, usize)>)
    ensures
        ({
            let k = spec_u64_from_le_bytes(b@.subrange(pos as int, pos + 8));
            if pos + 8 <= b@.len() && pos + 8 + k <= b@.len() {
                (r matches Some((v, p)) && v@ == b@.subrange(pos + 8, pos + 8 + k)
                    && p == pos + 8 + k)
            } else {
                r is None
            }
        }),
{
    match read_u64(b, pos) {
        None => None,
        Some((k, p)) => {
            if k as u128 <= b.len() as u128 {
                read_fixed(b, p, k as usize)
            } else {
                None
            }
        },
    }
}

/// Where a byte string starts with the length-prefixed form of `v`,
/// reading it back gives `v` and the position just after it.
pub proof fn lemma_read_len_prefixed(b: Seq<u8>, pos: int, v: Seq<u8>)
    requires
        0 <= pos,
        pos + enc_bytes(v).len() <= b.len(),
        b.len() <= u64::MAX,
        b.subrange(pos, pos + enc_bytes(v).len()) == enc_bytes(v),
    ensures
        spec_u64_from_le_bytes(b.subrange(pos, pos + 8)) == v.len(),
        b.subrange(pos + 8, pos + 8 + v.len()) == v,
{
    lemma_int_encodings();
    assert(b.subrange(pos, pos + 8) =~= enc_bytes(v).subrange(0, 8));
    assert(enc_bytes(v).subrange(0, 8) =~= enc_u64(v.len() as u64));
    assert(b.subrange(pos + 8, pos + 8 + v.len()) =~= enc_bytes(v).subrange(8, 8 + v.len() as int));
}

}
