//! The variable-length metadata record: an opaque, length-prefixed byte
//! blob carried between the header and the point data. Its internal
//! structure is out of scope; the codec preserves it verbatim, and only its
//! serialized length enters the offset bookkeeping.

use vstd::prelude::*;
use crate::bytes::{spec_u32_bytes, spec_u32_le, push_u32_le, read_u32_le, lemma_u32_round_trip};
use crate::error::Error;

verus! {

/// One metadata record: its bytes, preserved verbatim.
#[derive(Clone, Debug)]
pub struct Vlr {
    /// The record's bytes — its own header fields and payload together,
    /// opaque to this codec.
    pub body: Vec<u8>,
}

impl View for Vlr {
    type V = Seq<u8>;

    open spec fn view(&self) -> Seq<u8> {
        self.body@
    }
}

/// Well-formedness of a metadata record: its length-prefixed serialized form
/// must fit the four-byte length field.
pub open spec fn spec_vlr_wf(v: Seq<u8>) -> bool {
    v.len() <= u32::MAX - 4
}

/// The wire bytes of a metadata record: a four-byte little-endian length,
/// then the body verbatim.
pub open spec fn spec_vlr_bytes(v: Seq<u8>) -> Seq<u8>
    recommends
        spec_vlr_wf(v),
{
    spec_u32_bytes(v.len() as u32) + v
}

impl Vlr {
    /// Wraps a byte blob as a metadata record.
    pub fn new(body: Vec<u8>) -> (r: Vlr)
        ensures
            r@ == body@,
    {
        Vlr { body }
    }

    /// The record's serialized length: the length prefix plus the body.
    pub fn len(&self) -> (r: u32)
        requires
            spec_vlr_wf(self@),
        ensures
            r == 4 + self@.len(),
    {
        4 + self.body.len() as u32
    }
}

/// Appends the wire bytes of a metadata record.
pub fn write_vlr_to(out: &mut Vec<u8>, vlr: &Vlr)
    requires
        spec_vlr_wf(vlr@),
    ensures
        final(out)@ == old(out)@ + spec_vlr_bytes(vlr@),
{
    push_u32_le(out, vlr.body.len() as u32);
    let ghost prefixed = out@;
    let mut i: usize = 0;
    while i < vlr.body.len()
        invariant
            i <= vlr.body@.len(),
            out@ == prefixed + vlr.body@.subrange(0, i as int),
        decreases vlr.body@.len() - i,
    {
        out.push(vlr.body[i]);
        proof {
            assert(vlr.body@.subrange(0, i as int).push(vlr.body@[i as int]) =~= vlr.body@.subrange(
                0,
                i + 1,
            ));
        }
        i += 1;
    }
    proof {
        assert(vlr.body@.subrange(0, vlr.body@.len() as int) =~= vlr.body@);
        assert(out@ =~= old(out)@ + spec_vlr_bytes(vlr@));
    }
}

/// Where parsing one metadata record at `pos` leads: the record's body and
/// the position just past it, or a short read when the stream cannot hold
/// the length prefix or the announced body.
pub open spec fn spec_parse_vlr(s: Seq<u8>, pos: int) -> Result<(Seq<u8>, int), Error> {
    if pos + 4 > s.len() {
        Err(Error::ShortRead)
    } else {
        let len = spec_u32_le(s.subrange(pos, pos + 4)) as int;
        if pos + 4 + len > s.len() {
            Err(Error::ShortRead)
        } else {
            Ok((s.subrange(pos + 4, pos + 4 + len), pos + 4 + len))
        }
    }
}

/// A well-formed record's wire bytes parse back to the record, wherever they
/// stand in a stream.
pub proof fn lemma_vlr_round_trip(s: Seq<u8>, pos: int, v: Seq<u8>)
    requires
        spec_vlr_wf(v),
        0 <= pos,
        pos + spec_vlr_bytes(v).len() <= s.len(),
        s.subrange(pos, pos + spec_vlr_bytes(v).len()) == spec_vlr_bytes(v),
    ensures
        spec_parse_vlr(s, pos) == Ok::<_, Error>((v, pos + 4 + v.len())),
{
    let w = spec_vlr_bytes(v);
    assert(s.subrange(pos, pos + 4) =~= w.subrange(0, 4));
    assert(w.subrange(0, 4) =~= spec_u32_bytes(v.len() as u32));
    lemma_u32_round_trip(v.len() as u32);
    assert(s.subrange(pos + 4, pos + 4 + v.len()) =~= w.subrange(4, 4 + v.len() as int));
    assert(w.subrange(4, 4 + v.len() as int) =~= v);
}

/// Parses one metadata record at `pos`, returning the record and the
/// position just past it.
pub fn parse_vlr(b: &Vec<u8>, pos: usize) -> (res: Result<(Vlr, usize), Error>)
    requires
        pos <= b@.len(),
    ensures
        match res {
            Ok((v, end)) => spec_parse_vlr(b@, pos as int) == Ok::<_, Error>((v@, end as int))
                && pos < end <= b@.len() && v@.len() <= u32::MAX,
            Err(e) => spec_parse_vlr(b@, pos as int) == Err::<(Seq<u8>, int), _>(e),
        },
{
    let n = b.len();
    if pos > n || n - pos < 4 {
        return Err(Error::ShortRead);
    }
    let len = read_u32_le(b, pos) as usize;
    if n - (pos + 4) < len {
        return Err(Error::ShortRead);
    }
    let mut body: Vec<u8> = Vec::new();
    let mut i = pos + 4;
    let end = pos + 4 + len;
    proof {
        assert(body@ =~= b@.subrange(pos + 4, pos + 4));
    }
    while i < end
        invariant
            pos + 4 <= i <= end <= b@.len(),
            body@ == b@.subrange(pos + 4, i as int),
        decreases end - i,
    {
        body.push(b[i]);
        proof {
            assert(b@.subrange(pos + 4, i as int).push(b@[i as int]) =~= b@.subrange(
                pos + 4,
                i + 1,
            ));
        }
        i += 1;
    }
    proof {
        let lens = spec_u32_le(b@.subrange(pos as int, pos + 4)) as int;
        assert(body@ == b@.subrange(pos + 4, pos + 4 + lens));
        assert(spec_parse_vlr(b@, pos as int) == Ok::<_, Error>((body@, end as int)));
    }
    Ok((Vlr { body }, end))
}

} // verus!
