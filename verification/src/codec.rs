//! Structural encoding of command payloads: the serialization contract that
//! envelopes must satisfy to cross the system boundary and to be recorded in
//! the history log.

use vstd::bytes::{
    lemma_auto_spec_u64_to_from_le_bytes, spec_u64_from_le_bytes, spec_u64_to_le_bytes,
    u64_from_le_bytes, u64_to_le_bytes,
};
use vstd::prelude::*;
use vstd::slice::{slice_subrange, slice_to_vec};

use crate::idwrap::IDWrap;

verus! {

/// `e` occupies `data` from position `pos` on.
pub open spec fn is_encoding_at(data: Seq<u8>, pos: int, e: Seq<u8>) -> bool {
    &&& 0 <= pos
    &&& pos + e.len() <= data.len()
    &&& data.subrange(pos, pos + e.len()) == e
}

/// A concatenated encoding occupies `data` exactly when its parts occupy
/// `data` back to back.
pub proof fn lemma_encoding_concat(data: Seq<u8>, pos: int, e1: Seq<u8>, e2: Seq<u8>)
    ensures
        is_encoding_at(data, pos, e1 + e2) <==> (is_encoding_at(data, pos, e1) && is_encoding_at(
            data,
            pos + e1.len(),
            e2,
        )),
{
    let l1 = e1.len() as int;
    let l2 = e2.len() as int;
    if is_encoding_at(data, pos, e1 + e2) {
        assert(data.subrange(pos, pos + l1) =~= e1) by {
            assert forall|k: int| 0 <= k < l1 implies data.subrange(pos, pos + l1)[k] == e1[k] by {
                assert(data.subrange(pos, pos + l1 + l2)[k] == (e1 + e2)[k]);
            }
        }
        assert(data.subrange(pos + l1, pos + l1 + l2) =~= e2) by {
            assert forall|k: int| 0 <= k < l2 implies data.subrange(pos + l1, pos + l1 + l2)[k]
                == e2[k] by {
                assert(data.subrange(pos, pos + l1 + l2)[l1 + k] == (e1 + e2)[l1 + k]);
            }
        }
    }
    if is_encoding_at(data, pos, e1) && is_encoding_at(data, pos + l1, e2) {
        assert(data.subrange(pos, pos + l1 + l2) =~= e1 + e2) by {
            assert forall|k: int| 0 <= k < l1 + l2 implies data.subrange(pos, pos + l1 + l2)[k] == (
            e1 + e2)[k] by {
                if k < l1 {
                    assert(data.subrange(pos, pos + l1)[k] == e1[k]);
                } else {
                    assert(data.subrange(pos + l1, pos + l1 + l2)[k - l1] == e2[k - l1]);
                }
            }
        }
    }
}

/// Structural encode/decode of a value into a byte stream.
///
/// `decode` must return the value whose encoding occupies the buffer at the
/// given position, pinned down up to its view, so any value that was
/// serialized is reproduced — identifier and payload intact — by
/// deserializing (the round-trip law is the second `ensures` of `decode`
/// together with `encode`).
pub trait Codec: Sized + View {
    /// The wire form of `self`.
    spec fn encoding(self) -> Seq<u8>;

    /// Append the wire form of `self` to `out`.
    fn encode(&self, out: &mut Vec<u8>)
        ensures
            final(out)@ == old(out)@ + self.encoding(),
    ;

    /// Read one value off `data`, starting at `pos`; return it with the
    /// position just past its encoding. A value is returned exactly when the
    /// bytes at `pos` are the encoding of one, and it is that one.
    fn decode(data: &Vec<u8>, pos: usize) -> (r: Option<(Self, usize)>)
        requires
            pos <= data@.len(),
        ensures
            match r {
                Some((v, end)) => end == pos + v.encoding().len() && is_encoding_at(
                    data@,
                    pos as int,
                    v.encoding(),
                ),
                None => forall|v: Self| !is_encoding_at(data@, pos as int, #[trigger] v.encoding()),
            },
            forall|v: Self|
                is_encoding_at(data@, pos as int, #[trigger] v.encoding()) ==> (r matches Some(
                    (rv, end),
                ) && rv@ == v@ && end == pos + v.encoding().len()),
    ;
}

/// The wire form of `x` as a fresh buffer.
pub fn encode_to_vec<T: Codec>(x: &T) -> (r: Vec<u8>)
    ensures
        r@ == x.encoding(),
{
    let mut out: Vec<u8> = Vec::new();
    x.encode(&mut out);
    proof {
        assert(out@ =~= x.encoding());
    }
    out
}

/// Append the little-endian form of `x` to `out`.
pub fn encode_u64(x: u64, out: &mut Vec<u8>)
    ensures
        final(out)@ == old(out)@ + spec_u64_to_le_bytes(x),
{
    let mut bytes = u64_to_le_bytes(x);
    out.append(&mut bytes);
}

/// Read a little-endian integer off `data` at `pos`; nothing is returned
/// exactly when fewer than its eight bytes remain.
pub fn decode_u64(data: &Vec<u8>, pos: usize) -> (r: Option<(u64, usize)>)
    requires
        pos <= data@.len(),
    ensures
        match r {
            Some((x, end)) => end == pos + 8 && is_encoding_at(
                data@,
                pos as int,
                spec_u64_to_le_bytes(x),
            ),
            None => data@.len() < pos + 8,
        },
        forall|x: u64|
            is_encoding_at(data@, pos as int, #[trigger] spec_u64_to_le_bytes(x)) ==> r == Some(
                (x, (pos + 8) as usize),
            ),
{
    proof {
        lemma_auto_spec_u64_to_from_le_bytes();
    }
    if data.len() - pos < 8 {
        return None;
    }
    let bytes = slice_subrange(data.as_slice(), pos, pos + 8);
    let x = u64_from_le_bytes(bytes);
    proof {
        assert forall|y: u64|
            is_encoding_at(data@, pos as int, #[trigger] spec_u64_to_le_bytes(y)) implies y
            == x by {
            assert(data@.subrange(pos as int, pos as int + 8) == spec_u64_to_le_bytes(y));
            assert(spec_u64_from_le_bytes(spec_u64_to_le_bytes(y)) == y);
        }
        assert(spec_u64_to_le_bytes(x) == data@.subrange(pos as int, pos as int + 8)) by {
            assert(spec_u64_to_le_bytes(spec_u64_from_le_bytes(bytes@)) == bytes@);
        }
    }
    Some((x, pos + 8))
}

/// The wire form of a raw byte payload: its length, then the bytes.
pub open spec fn spec_lp_bytes(b: Seq<u8>) -> Seq<u8> {
    spec_u64_to_le_bytes(b.len() as u64) + b
}

/// Append the length-prefixed form of `b` to `out`.
pub fn encode_lp_bytes(b: &Vec<u8>, out: &mut Vec<u8>)
    ensures
        final(out)@ == old(out)@ + spec_lp_bytes(b@),
{
    encode_u64(b.len() as u64, out);
    let mut bytes = slice_to_vec(b.as_slice());
    out.append(&mut bytes);
    proof {
        assert(out@ =~= old(out)@ + spec_lp_bytes(b@));
    }
}

/// Read one length-prefixed byte payload off `data` at `pos`; a payload is
/// returned exactly when one's wire form occupies `data` there, and it is
/// that payload.
pub fn decode_lp_bytes(data: &Vec<u8>, pos: usize) -> (r: Option<(Vec<u8>, usize)>)
    requires
        pos <= data@.len(),
    ensures
        match r {
            Some((b, end)) => end == pos + spec_lp_bytes(b@).len() && is_encoding_at(
                data@,
                pos as int,
                spec_lp_bytes(b@),
            ),
            None => forall|b: Seq<u8>| !is_encoding_at(data@, pos as int, #[trigger] spec_lp_bytes(b)),
        },
        forall|b: Seq<u8>|
            is_encoding_at(data@, pos as int, #[trigger] spec_lp_bytes(b)) ==> (r matches Some(
                (rb, end),
            ) && rb@ == b && end == pos + spec_lp_bytes(b).len()),
{
    proof {
        lemma_auto_spec_u64_to_from_le_bytes();
    }
    let head = decode_u64(data, pos);
    match head {
        None => {
            proof {
                assert forall|b: Seq<u8>| !is_encoding_at(
                    data@,
                    pos as int,
                    #[trigger] spec_lp_bytes(b),
                ) by {
                    lemma_encoding_concat(data@, pos as int, spec_u64_to_le_bytes(b.len() as u64), b);
                }
            }
            None
        },
        Some((len64, mid)) => {
            if len64 > (data.len() - mid) as u64 {
                proof {
                    assert forall|b: Seq<u8>| !is_encoding_at(
                        data@,
                        pos as int,
                        #[trigger] spec_lp_bytes(b),
                    ) by {
                        lemma_encoding_concat(
                            data@,
                            pos as int,
                            spec_u64_to_le_bytes(b.len() as u64),
                            b,
                        );
                        if is_encoding_at(data@, pos as int, spec_u64_to_le_bytes(b.len() as u64)) {
                            assert(b.len() as u64 == len64);
                        }
                    }
                }
                None
            } else {
                let len = len64 as usize;
                let bytes = slice_to_vec(slice_subrange(data.as_slice(), mid, mid + len));
                proof {
                    lemma_encoding_concat(
                        data@,
                        pos as int,
                        spec_u64_to_le_bytes(len64),
                        bytes@,
                    );
                    assert forall|b: Seq<u8>|
                        is_encoding_at(data@, pos as int, #[trigger] spec_lp_bytes(b)) implies b
                        == bytes@ by {
                        lemma_encoding_concat(
                            data@,
                            pos as int,
                            spec_u64_to_le_bytes(b.len() as u64),
                            b,
                        );
                        assert(b.len() as u64 == len64);
                        assert(b =~= bytes@);
                    }
                }
                Some((bytes, mid + len))
            }
        },
    }
}

/// An envelope's wire form is its identifier, then its payload: the envelope
/// round-trips whenever the payload does.
impl<T: Codec> Codec for IDWrap<T> {
    open spec fn encoding(self) -> Seq<u8> {
        spec_u64_to_le_bytes(self.id) + self.inner.encoding()
    }

    fn encode(&self, out: &mut Vec<u8>) {
        encode_u64(self.id, out);
        self.inner.encode(out);
        proof {
            assert(out@ =~= old(out)@ + self.encoding());
        }
    }

    fn decode(data: &Vec<u8>, pos: usize) -> (r: Option<(Self, usize)>) {
        proof {
            lemma_auto_spec_u64_to_from_le_bytes();
        }
        match decode_u64(data, pos) {
            None => {
                proof {
                    assert forall|v: Self| !is_encoding_at(
                        data@,
                        pos as int,
                        #[trigger] v.encoding(),
                    ) by {
                        lemma_encoding_concat(
                            data@,
                            pos as int,
                            spec_u64_to_le_bytes(v.id),
                            v.inner.encoding(),
                        );
                    }
                }
                None
            },
            Some((id, mid)) => {
                match T::decode(data, mid) {
                    None => {
                        proof {
                            assert forall|v: Self| !is_encoding_at(
                                data@,
                                pos as int,
                                #[trigger] v.encoding(),
                            ) by {
                                lemma_encoding_concat(
                                    data@,
                                    pos as int,
                                    spec_u64_to_le_bytes(v.id),
                                    v.inner.encoding(),
                                );
                            }
                        }
                        None
                    },
                    Some((inner, end)) => {
                        let w = IDWrap { id, inner };
                        proof {
                            lemma_encoding_concat(
                                data@,
                                pos as int,
                                spec_u64_to_le_bytes(id),
                                w.inner.encoding(),
                            );
                            assert forall|v: Self|
                                is_encoding_at(
                                    data@,
                                    pos as int,
                                    #[trigger] v.encoding(),
                                ) implies v@ == w@ && end == pos + v.encoding().len() by {
                                lemma_encoding_concat(
                                    data@,
                                    pos as int,
                                    spec_u64_to_le_bytes(v.id),
                                    v.inner.encoding(),
                                );
                                assert(v.id == id);
                                assert(v.inner@ == inner@);
                            }
                        }
                        Some((w, end))
                    },
                }
            },
        }
    }
}

} // verus!

