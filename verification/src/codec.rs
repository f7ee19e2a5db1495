//! The spec codec: a transform chain is serialized into a compact,
//! self-describing binary layout (a one-byte variant tag followed by the
//! variant's fields, little-endian for the 32-bit integers), then wrapped in
//! unpadded URL-safe base64. Decoding is strict: a token is accepted exactly
//! when it is the encoding of some chain, so `decode` inverts `encode` and
//! rejects everything else with a `DecodeError`.

use vstd::prelude::*;

use crate::pb::{Filter, ImageSpec, Resize, ResizeType, SampleFilter, Spec, SpecData, Watermark};

verus! {

/// Why a token was rejected.
#[derive(Clone, Copy, Debug, PartialEq, Eq, Structural)]
pub enum DecodeError {
    /// The token is not valid unpadded URL-safe base64 text.
    InvalidText,
    /// The decoded payload is truncated, carries an unknown variant tag, or a
    /// field value outside its domain.
    MalformedPayload,
    /// Bytes handed to an engine are not a supported image container format.
    UnsupportedImage,
}

pub const RESIZE_TAG: u8 = 1;
pub const FILTER_TAG: u8 = 2;
pub const WATERMARK_TAG: u8 = 3;

/// The four little-endian bytes of a 32-bit integer.
pub open spec fn le4(n: u32) -> Seq<u8> {
    seq![
        (n & 0xff) as u8,
        ((n >> 8) & 0xff) as u8,
        ((n >> 16) & 0xff) as u8,
        ((n >> 24) & 0xff) as u8,
    ]
}

pub open spec fn rtype_tag(t: ResizeType) -> u8 {
    match t {
        ResizeType::Normal => 0,
        ResizeType::SeamCarve => 1,
    }
}

pub open spec fn sfilter_tag(f: SampleFilter) -> u8 {
    match f {
        SampleFilter::Undefined => 0,
        SampleFilter::Nearest => 1,
        SampleFilter::Triangle => 2,
        SampleFilter::CatmullRom => 3,
        SampleFilter::Gaussian => 4,
        SampleFilter::Lanczos3 => 5,
    }
}

pub open spec fn filter_tag(f: Filter) -> u8 {
    match f {
        Filter::Unspecified => 0,
        Filter::Oceanic => 1,
        Filter::Islands => 2,
        Filter::Marine => 3,
    }
}

/// The binary encoding of one operation: a variant tag, then the fields in
/// declaration order.
pub open spec fn spec_encode_op(s: Spec) -> Seq<u8> {
    match s.data {
        SpecData::Resize(r) => seq![RESIZE_TAG] + le4(r.width) + le4(r.height)
            + seq![rtype_tag(r.rtype), sfilter_tag(r.filter)],
        SpecData::Filter(f) => seq![FILTER_TAG, filter_tag(f)],
        SpecData::Watermark(w) => seq![WATERMARK_TAG] + le4(w.x) + le4(w.y),
    }
}

/// The binary encoding of a chain: the operations' encodings, in order.
pub open spec fn spec_encode_chain(ops: Seq<Spec>) -> Seq<u8>
    decreases ops.len(),
{
    if ops.len() == 0 {
        Seq::empty()
    } else {
        spec_encode_op(ops[0]) + spec_encode_chain(ops.skip(1))
    }
}

/// How many bytes an operation with the given tag occupies, tag included.
pub open spec fn op_len(tag: u8) -> int {
    if tag == RESIZE_TAG {
        11
    } else if tag == FILTER_TAG {
        2
    } else {
        9
    }
}

/// The 32-bit integer whose little-endian bytes stand at `pos`.
pub open spec fn le4_at(b: Seq<u8>, pos: int) -> u32 {
    (b[pos] as u32) | ((b[pos + 1] as u32) << 8) | ((b[pos + 2] as u32) << 16) | ((b[pos + 3]
        as u32) << 24)
}

/// The operation whose encoding starts the byte sequence, if the bytes there
/// are well-formed: the tag is known, the payload is complete, and every
/// enumeration byte is in its domain.
pub open spec fn spec_decode_op(b: Seq<u8>) -> Option<Spec> {
    if b.len() == 0 {
        None
    } else if b[0] == RESIZE_TAG {
        if b.len() >= 11 && b[9] <= 1 && b[10] <= 5 {
            Some(Spec {
                data: SpecData::Resize(Resize {
                    width: le4_at(b, 1),
                    height: le4_at(b, 5),
                    rtype: if b[9] == 0 { ResizeType::Normal } else { ResizeType::SeamCarve },
                    filter: if b[10] == 0 {
                        SampleFilter::Undefined
                    } else if b[10] == 1 {
                        SampleFilter::Nearest
                    } else if b[10] == 2 {
                        SampleFilter::Triangle
                    } else if b[10] == 3 {
                        SampleFilter::CatmullRom
                    } else if b[10] == 4 {
                        SampleFilter::Gaussian
                    } else {
                        SampleFilter::Lanczos3
                    },
                }),
            })
        } else {
            None
        }
    } else if b[0] == FILTER_TAG {
        if b.len() >= 2 && b[1] <= 3 {
            Some(Spec {
                data: SpecData::Filter(
                    if b[1] == 0 {
                        Filter::Unspecified
                    } else if b[1] == 1 {
                        Filter::Oceanic
                    } else if b[1] == 2 {
                        Filter::Islands
                    } else {
                        Filter::Marine
                    },
                ),
            })
        } else {
            None
        }
    } else if b[0] == WATERMARK_TAG {
        if b.len() >= 9 {
            Some(Spec { data: SpecData::Watermark(Watermark { x: le4_at(b, 1), y: le4_at(b, 5) }) })
        } else {
            None
        }
    } else {
        None
    }
}

/// The chain whose encoding is exactly the byte sequence, if there is one.
pub open spec fn spec_decode_chain(b: Seq<u8>) -> Option<Seq<Spec>>
    decreases b.len(),
{
    if b.len() == 0 {
        Some(Seq::empty())
    } else {
        match spec_decode_op(b) {
            None => None,
            Some(op) => {
                if b.len() >= op_len(b[0]) {
                    match spec_decode_chain(b.skip(op_len(b[0]))) {
                        None => None,
                        Some(rest) => Some(seq![op] + rest),
                    }
                } else {
                    None
                }
            },
        }
    }
}

proof fn lemma_le4_combine(n: u32)
    ensures
        (((n & 0xff) as u8) as u32) | ((((n >> 8) & 0xff) as u8) as u32) << 8 | ((((n >> 16)
            & 0xff) as u8) as u32) << 16 | ((((n >> 24) & 0xff) as u8) as u32) << 24 == n,
{
    assert((((n & 0xff) as u8) as u32) | ((((n >> 8) & 0xff) as u8) as u32) << 8 | ((((n >> 16)
        & 0xff) as u8) as u32) << 16 | ((((n >> 24) & 0xff) as u8) as u32) << 24 == n)
        by (bit_vector);
}

/// Reading back the four bytes that `le4` wrote yields the original integer.
proof fn lemma_le4_at_inverse(b: Seq<u8>, pos: int, n: u32)
    requires
        0 <= pos,
        pos + 4 <= b.len(),
        b.subrange(pos, pos + 4) == le4(n),
    ensures
        le4_at(b, pos) == n,
{
    assert(b[pos] == le4(n)[0]);
    assert(b[pos + 1] == le4(n)[1]);
    assert(b[pos + 2] == le4(n)[2]);
    assert(b[pos + 3] == le4(n)[3]);
    lemma_le4_combine(n);
}

/// Writing back the integer read from four bytes yields those bytes.
proof fn lemma_le4_of_bytes(b0: u8, b1: u8, b2: u8, b3: u8)
    ensures
        le4((b0 as u32) | ((b1 as u32) << 8) | ((b2 as u32) << 16) | ((b3 as u32) << 24))
            == seq![b0, b1, b2, b3],
{
    let n: u32 = (b0 as u32) | ((b1 as u32) << 8) | ((b2 as u32) << 16) | ((b3 as u32) << 24);
    assert({
        let m: u32 = (b0 as u32) | ((b1 as u32) << 8) | ((b2 as u32) << 16) | ((b3 as u32) << 24);
        (m & 0xff) as u8 == b0 && ((m >> 8) & 0xff) as u8 == b1 && ((m >> 16) & 0xff) as u8 == b2
            && ((m >> 24) & 0xff) as u8 == b3
    }) by (bit_vector);
    assert(le4(n) =~= seq![b0, b1, b2, b3]);
}

/// The tag byte that opens an operation's encoding.
pub open spec fn op_tag(s: Spec) -> u8 {
    match s.data {
        SpecData::Resize(_) => RESIZE_TAG,
        SpecData::Filter(_) => FILTER_TAG,
        SpecData::Watermark(_) => WATERMARK_TAG,
    }
}

/// An encoded operation opens with its tag and occupies exactly the length
/// the tag announces.
proof fn lemma_encode_op_shape(s: Spec)
    ensures
        spec_encode_op(s).len() == op_len(op_tag(s)),
        spec_encode_op(s)[0] == op_tag(s),
        1 <= op_tag(s) <= 3,
{
}

/// Decoding recovers an encoded operation, whatever bytes follow it.
proof fn lemma_decode_op_of_encode(s: Spec, rest: Seq<u8>)
    ensures
        spec_decode_op(spec_encode_op(s) + rest) == Some(s),
        (spec_encode_op(s) + rest).skip(op_len(op_tag(s))) == rest,
{
    let b = spec_encode_op(s) + rest;
    lemma_encode_op_shape(s);
    assert(b.skip(op_len(op_tag(s))) =~= rest);
    match s.data {
        SpecData::Resize(r) => {
            assert(b.subrange(1, 5) =~= le4(r.width));
            assert(b.subrange(5, 9) =~= le4(r.height));
            lemma_le4_at_inverse(b, 1, r.width);
            lemma_le4_at_inverse(b, 5, r.height);
            assert(b[9] == rtype_tag(r.rtype));
            assert(b[10] == sfilter_tag(r.filter));
        },
        SpecData::Filter(f) => {
            assert(b[1] == filter_tag(f));
        },
        SpecData::Watermark(w) => {
            assert(b.subrange(1, 5) =~= le4(w.x));
            assert(b.subrange(5, 9) =~= le4(w.y));
            lemma_le4_at_inverse(b, 1, w.x);
            lemma_le4_at_inverse(b, 5, w.y);
        },
    }
}

/// Law: decoding inverts encoding — every representable chain is recovered,
/// exactly, from its own binary encoding.
pub proof fn lemma_chain_round_trip(ops: Seq<Spec>)
    ensures
        spec_decode_chain(spec_encode_chain(ops)) == Some(ops),
    decreases ops.len(),
{
    if ops.len() == 0 {
        assert(spec_decode_chain(spec_encode_chain(ops)) == Some(Seq::<Spec>::empty()));
        assert(ops =~= Seq::<Spec>::empty());
    } else {
        let b = spec_encode_chain(ops);
        let rest = spec_encode_chain(ops.skip(1));
        lemma_encode_op_shape(ops[0]);
        lemma_decode_op_of_encode(ops[0], rest);
        lemma_chain_round_trip(ops.skip(1));
        assert(b.len() > 0);
        assert(seq![ops[0]] + ops.skip(1) =~= ops);
    }
}

/// Law: the encoding is injective — no two distinct chains share an encoding,
/// hence no two distinct chains share a token.
pub proof fn lemma_encode_injective(c1: Seq<Spec>, c2: Seq<Spec>)
    requires
        spec_encode_chain(c1) == spec_encode_chain(c2),
    ensures
        c1 == c2,
{
    lemma_chain_round_trip(c1);
    lemma_chain_round_trip(c2);
}

/// Law: decoding is canonical — a byte sequence that decodes at all is
/// exactly the encoding of the chain it decodes to.
pub proof fn lemma_decode_canonical(b: Seq<u8>, ops: Seq<Spec>)
    requires
        spec_decode_chain(b) == Some(ops),
    ensures
        spec_encode_chain(ops) == b,
    decreases b.len(),
{
    if b.len() == 0 {
        assert(spec_encode_chain(ops) =~= b);
    } else {
        let op = spec_decode_op(b)->Some_0;
        let k = op_len(b[0]);
        let rest = spec_decode_chain(b.skip(k))->Some_0;
        lemma_decode_canonical(b.skip(k), rest);
        lemma_decode_op_exact(b);
        assert(ops == seq![op] + rest);
        assert(ops[0] == op);
        assert(ops.skip(1) =~= rest);
        assert(spec_encode_chain(ops) == spec_encode_op(op) + spec_encode_chain(rest));
        assert(spec_encode_op(op) + spec_encode_chain(rest) =~= b.take(k) + b.skip(k));
        assert(b.take(k) + b.skip(k) =~= b);
    }
}

/// A successfully decoded operation re-encodes to exactly the bytes it was
/// read from.
proof fn lemma_decode_op_exact(b: Seq<u8>)
    requires
        spec_decode_op(b) is Some,
    ensures
        b.len() >= op_len(b[0]),
        spec_encode_op(spec_decode_op(b)->Some_0) == b.take(op_len(b[0])),
        op_tag(spec_decode_op(b)->Some_0) == b[0],
    decreases b.len(),
{
    let s = spec_decode_op(b)->Some_0;
    if b[0] == RESIZE_TAG {
        lemma_le4_of_bytes(b[1], b[2], b[3], b[4]);
        lemma_le4_of_bytes(b[5], b[6], b[7], b[8]);
        assert(le4(le4_at(b, 1)) == seq![b[1], b[2], b[3], b[4]]);
        assert(le4(le4_at(b, 5)) == seq![b[5], b[6], b[7], b[8]]);
        assert(spec_encode_op(s) =~= b.take(11));
    } else if b[0] == FILTER_TAG {
        assert(spec_encode_op(s) =~= b.take(2));
    } else {
        lemma_le4_of_bytes(b[1], b[2], b[3], b[4]);
        lemma_le4_of_bytes(b[5], b[6], b[7], b[8]);
        assert(le4(le4_at(b, 1)) == seq![b[1], b[2], b[3], b[4]]);
        assert(le4(le4_at(b, 5)) == seq![b[5], b[6], b[7], b[8]]);
        assert(spec_encode_op(s) =~= b.take(9));
    }
}

/// Appending one operation to a chain appends its encoding.
proof fn lemma_encode_chain_snoc(s: Seq<Spec>, x: Spec)
    ensures
        spec_encode_chain(s.push(x)) == spec_encode_chain(s) + spec_encode_op(x),
    decreases s.len(),
{
    if s.len() == 0 {
        assert(s.push(x)[0] == x);
        assert(s.push(x).skip(1) =~= Seq::<Spec>::empty());
        assert(spec_encode_chain(s.push(x).skip(1)) == Seq::<u8>::empty());
        assert(spec_encode_chain(s.push(x)) == spec_encode_op(x) + Seq::<u8>::empty());
        assert(spec_encode_chain(s) == Seq::<u8>::empty());
        assert(spec_encode_op(x) + Seq::<u8>::empty() =~= Seq::<u8>::empty() + spec_encode_op(x));
    } else {
        lemma_encode_chain_snoc(s.skip(1), x);
        assert(s.push(x)[0] == s[0]);
        assert(s.push(x).skip(1) =~= s.skip(1).push(x));
        assert(spec_encode_chain(s.push(x).skip(1)) == spec_encode_chain(s.skip(1))
            + spec_encode_op(x));
        assert(spec_encode_chain(s.push(x)) == spec_encode_op(s[0]) + spec_encode_chain(
        s.push(x).skip(1)));
        assert(spec_encode_chain(s) == spec_encode_op(s[0]) + spec_encode_chain(s.skip(1)));
        assert(spec_encode_op(s[0]) + (spec_encode_chain(s.skip(1)) + spec_encode_op(x)) =~= (
        spec_encode_op(s[0]) + spec_encode_chain(s.skip(1))) + spec_encode_op(x));
    }
}

fn push_u32(out: &mut Vec<u8>, n: u32)
    ensures
        final(out)@ == old(out)@ + le4(n),
{
    proof {
        assert(n & 0xff < 256 && (n >> 8) & 0xff < 256 && (n >> 16) & 0xff < 256 && (n >> 24)
            & 0xff < 256) by (bit_vector);
    }
    out.push((n & 0xff) as u8);
    out.push(((n >> 8) & 0xff) as u8);
    out.push(((n >> 16) & 0xff) as u8);
    out.push(((n >> 24) & 0xff) as u8);
    proof {
        assert(out@ =~= old(out)@ + le4(n));
    }
}

fn push_op(out: &mut Vec<u8>, s: &Spec)
    ensures
        final(out)@ == old(out)@ + spec_encode_op(*s),
{
    match &s.data {
        SpecData::Resize(r) => {
            out.push(RESIZE_TAG);
            push_u32(out, r.width);
            push_u32(out, r.height);
            let rt: u8 = match r.rtype {
                ResizeType::Normal => 0,
                ResizeType::SeamCarve => 1,
            };
            out.push(rt);
            let sf: u8 = match r.filter {
                SampleFilter::Undefined => 0,
                SampleFilter::Nearest => 1,
                SampleFilter::Triangle => 2,
                SampleFilter::CatmullRom => 3,
                SampleFilter::Gaussian => 4,
                SampleFilter::Lanczos3 => 5,
            };
            out.push(sf);
            proof {
                assert(out@ =~= old(out)@ + spec_encode_op(*s));
            }
        },
        SpecData::Filter(f) => {
            out.push(FILTER_TAG);
            let ft: u8 = match f {
                Filter::Unspecified => 0,
                Filter::Oceanic => 1,
                Filter::Islands => 2,
                Filter::Marine => 3,
            };
            out.push(ft);
            proof {
                assert(out@ =~= old(out)@ + spec_encode_op(*s));
            }
        },
        SpecData::Watermark(w) => {
            out.push(WATERMARK_TAG);
            push_u32(out, w.x);
            push_u32(out, w.y);
            proof {
                assert(out@ =~= old(out)@ + spec_encode_op(*s));
            }
        },
    }
}

/// Serializes a chain into its binary encoding.
fn encode_chain(specs: &Vec<Spec>) -> (r: Vec<u8>)
    ensures
        r@ == spec_encode_chain(specs@),
{
    let mut out: Vec<u8> = Vec::new();
    for i in 0..specs.len()
        invariant
            out@ == spec_encode_chain(specs@.take(i as int)),
    {
        push_op(&mut out, &specs[i]);
        proof {
            lemma_encode_chain_snoc(specs@.take(i as int), specs@[i as int]);
            assert(specs@.take(i + 1) =~= specs@.take(i as int).push(specs@[i as int]));
        }
    }
    proof {
        assert(specs@.take(specs@.len() as int) =~= specs@);
    }
    out
}

fn read_u32(b: &[u8], pos: usize) -> (r: u32)
    requires
        pos + 4 <= b@.len(),
    ensures
        r == le4_at(b@, pos as int),
{
    (b[pos] as u32) | ((b[pos + 1] as u32) << 8) | ((b[pos + 2] as u32) << 16) | ((b[pos + 3]
        as u32) << 24)
}

/// Deserializes a binary payload, strictly: it returns the chain whose
/// encoding the payload is, and an error when the payload is no chain's
/// encoding.
fn decode_chain(b: &[u8]) -> (r: Result<Vec<Spec>, DecodeError>)
    ensures
        match r {
            Ok(ops) => spec_decode_chain(b@) == Some(ops@),
            Err(e) => spec_decode_chain(b@) is None && e == DecodeError::MalformedPayload,
        },
{
    let mut ops: Vec<Spec> = Vec::new();
    let mut pos: usize = 0;
    proof {
        assert(b@.skip(0) =~= b@);
        assert forall|rest: Seq<Spec>|
            spec_decode_chain(b@.skip(0)) == Some(rest) implies spec_decode_chain(b@) == Some(
        ops@ + rest) by {
            assert(ops@ + rest =~= rest);
        }
    }
    while pos < b.len()
        invariant
            pos <= b@.len(),
            spec_decode_chain(b@) is Some <==> spec_decode_chain(b@.skip(pos as int)) is Some,
            forall|rest: Seq<Spec>|
                spec_decode_chain(b@.skip(pos as int)) == Some(rest) ==> spec_decode_chain(b@)
                    == Some(ops@ + rest),
        decreases b@.len() - pos,
    {
        let ghost m = b@.skip(pos as int);
        let tag: u8 = b[pos];
        assert(m[0] == tag);
        let op: Spec;
        let mut next: usize = pos;
        if tag == RESIZE_TAG {
            if b.len() - pos < 11 {
                proof {
                    assert(spec_decode_op(m) is None);
                }
                return Err(DecodeError::MalformedPayload);
            }
            let rt_byte: u8 = b[pos + 9];
            let sf_byte: u8 = b[pos + 10];
            if rt_byte > 1 || sf_byte > 5 {
                proof {
                    assert(m[9] == rt_byte && m[10] == sf_byte);
                    assert(spec_decode_op(m) is None);
                }
                return Err(DecodeError::MalformedPayload);
            }
            let width: u32 = read_u32(b, pos + 1);
            let height: u32 = read_u32(b, pos + 5);
            let rtype: ResizeType = if rt_byte == 0 {
                ResizeType::Normal
            } else {
                ResizeType::SeamCarve
            };
            let filter: SampleFilter = if sf_byte == 0 {
                SampleFilter::Undefined
            } else if sf_byte == 1 {
                SampleFilter::Nearest
            } else if sf_byte == 2 {
                SampleFilter::Triangle
            } else if sf_byte == 3 {
                SampleFilter::CatmullRom
            } else if sf_byte == 4 {
                SampleFilter::Gaussian
            } else {
                SampleFilter::Lanczos3
            };
            op = Spec { data: SpecData::Resize(Resize { width, height, rtype, filter }) };
            next = pos + 11;
            proof {
                assert(m[9] == rt_byte && m[10] == sf_byte);
                assert(le4_at(m, 1) == width && le4_at(m, 5) == height);
                assert(spec_decode_op(m) == Some(op));
            }
        } else if tag == FILTER_TAG {
            if b.len() - pos < 2 {
                proof {
                    assert(spec_decode_op(m) is None);
                }
                return Err(DecodeError::MalformedPayload);
            }
            let f_byte: u8 = b[pos + 1];
            if f_byte > 3 {
                proof {
                    assert(m[1] == f_byte);
                    assert(spec_decode_op(m) is None);
                }
                return Err(DecodeError::MalformedPayload);
            }
            let filter: Filter = if f_byte == 0 {
                Filter::Unspecified
            } else if f_byte == 1 {
                Filter::Oceanic
            } else if f_byte == 2 {
                Filter::Islands
            } else {
                Filter::Marine
            };
            op = Spec { data: SpecData::Filter(filter) };
            next = pos + 2;
            proof {
                assert(m[1] == f_byte);
                assert(spec_decode_op(m) == Some(op));
            }
        } else if tag == WATERMARK_TAG {
            if b.len() - pos < 9 {
                proof {
                    assert(spec_decode_op(m) is None);
                }
                return Err(DecodeError::MalformedPayload);
            }
            let x: u32 = read_u32(b, pos + 1);
            let y: u32 = read_u32(b, pos + 5);
            op = Spec { data: SpecData::Watermark(Watermark { x, y }) };
            next = pos + 9;
            proof {
                assert(le4_at(m, 1) == x && le4_at(m, 5) == y);
                assert(spec_decode_op(m) == Some(op));
            }
        } else {
            proof {
                assert(spec_decode_op(m) is None);
            }
            return Err(DecodeError::MalformedPayload);
        }
        proof {
            assert(next - pos == op_len(m[0]));
            assert(b@.skip(next as int) =~= m.skip(op_len(m[0])));
            assert(forall|rest: Seq<Spec>|
                spec_decode_chain(b@.skip(next as int)) == Some(rest) ==> spec_decode_chain(m)
                    == Some(seq![op] + rest));
            assert forall|rest: Seq<Spec>|
                spec_decode_chain(b@.skip(next as int)) == Some(rest) implies spec_decode_chain(b@)
                == Some(ops@.push(op) + rest) by {
                assert(spec_decode_chain(m) == Some(seq![op] + rest));
                assert(ops@ + (seq![op] + rest) =~= ops@.push(op) + rest);
            }
        }
        ops.push(op);
        pos = next;
    }
    proof {
        assert(b@.skip(pos as int) =~= Seq::<u8>::empty());
        assert(spec_decode_chain(b@.skip(pos as int)) == Some(Seq::<Spec>::empty()));
        assert(ops@ + Seq::<Spec>::empty() =~= ops@);
    }
    Ok(ops)
}

/// The text of the unpadded URL-safe base64 encoding of a byte sequence.
pub uninterp spec fn b64_of(b: Seq<u8>) -> Seq<char>;

/// The token that encodes a chain: base64 text over the binary encoding.
pub open spec fn spec_token(ops: Seq<Spec>) -> Seq<char> {
    b64_of(spec_encode_chain(ops))
}

/// A character of the URL-safe base64 alphabet: a letter, a digit, `-` or
/// `_`. No such character needs percent-escaping in a URL path segment.
pub open spec fn token_char(c: char) -> bool {
    let n = c as u32;
    (65 <= n && n <= 90) || (97 <= n && n <= 122) || (48 <= n && n <= 57) || n == 45 || n == 95
}

/// Relies on base64's `URL_SAFE_NO_PAD` engine: `encode` emits the canonical
/// unpadded text over the URL-safe alphabet (`A-Z a-z 0-9 - _`); the empty
/// byte sequence encodes to the empty text.
#[verifier::external_body]
fn b64_encode(b: &[u8]) -> (r: String)
    ensures
        r@ == b64_of(b@),
        forall|i: int| 0 <= i < r@.len() ==> token_char(r@[i]),
        b@.len() == 0 ==> r@.len() == 0,
{
    base64::Engine::encode(&base64::engine::general_purpose::URL_SAFE_NO_PAD, b)
}

/// Relies on base64's `URL_SAFE_NO_PAD` engine: `decode` inverts `encode`,
/// and is strict — it requires absent padding and zero trailing bits, so it
/// accepts exactly the texts that `encode` produces.
#[verifier::external_body]
fn b64_decode(s: &str) -> (r: Option<Vec<u8>>)
    ensures
        forall|b: Seq<u8>| s@ == b64_of(b) ==> r is Some && r->0@ == b,
        r is Some ==> s@ == b64_of(r->0@),
{
    base64::Engine::decode(&base64::engine::general_purpose::URL_SAFE_NO_PAD, s).ok()
}

impl ImageSpec {
    /// Serializes the chain into its URL-safe token. Encoding is total and
    /// deterministic: the same chain always yields the same token, made only
    /// of unreserved URL characters; the empty chain yields the empty token.
    pub fn encode(&self) -> (t: String)
        ensures
            t@ == spec_token(self@),
            forall|i: int| 0 <= i < t@.len() ==> token_char(t@[i]),
            self@.len() == 0 ==> t@.len() == 0,
    {
        let bytes = encode_chain(&self.specs);
        proof {
            if self@.len() == 0 {
                assert(spec_encode_chain(self@) =~= Seq::<u8>::empty());
            }
        }
        b64_encode(bytes.as_slice())
    }

    /// Decodes a token, strictly: it returns `Ok` exactly on the tokens that
    /// `encode` produces, recovering the encoded chain; it rejects text that
    /// is not base64 with `InvalidText`, and a payload that is truncated,
    /// carries an unknown tag or an out-of-domain field with
    /// `MalformedPayload`. It never panics and never substitutes a default.
    pub fn decode(token: &str) -> (r: Result<ImageSpec, DecodeError>)
        ensures
            r is Ok ==> token@ == spec_token(r->Ok_0@),
            forall|c: Seq<Spec>| token@ == spec_token(c) ==> r is Ok && r->Ok_0@ == c,
            (r is Err && r->Err_0 == DecodeError::InvalidText) <==> !(exists|bs: Seq<u8>|
                token@ == b64_of(bs)),
            (r is Err && r->Err_0 == DecodeError::MalformedPayload) <==> ((exists|bs: Seq<u8>|
                token@ == b64_of(bs)) && !(exists|c: Seq<Spec>| token@ == spec_token(c))),
    {
        match b64_decode(token) {
            None => {
                proof {
                    assert(forall|bs: Seq<u8>| token@ != b64_of(bs));
                }
                Err(DecodeError::InvalidText)
            },
            Some(bytes) => {
                match decode_chain(bytes.as_slice()) {
                    Ok(ops) => {
                        proof {
                            lemma_decode_canonical(bytes@, ops@);
                            assert(token@ == spec_token(ops@));
                            assert(exists|c: Seq<Spec>| token@ == spec_token(c));
                            assert forall|c: Seq<Spec>| token@ == spec_token(c) implies ops@
                                == c by {
                                assert(bytes@ == spec_encode_chain(c));
                                lemma_encode_injective(ops@, c);
                            }
                        }
                        Ok(ImageSpec { specs: ops })
                    },
                    Err(e) => {
                        proof {
                            assert(token@ == b64_of(bytes@));
                            assert(exists|bs: Seq<u8>| token@ == b64_of(bs));
                            assert forall|c: Seq<Spec>| token@ != spec_token(c) by {
                                if token@ == spec_token(c) {
                                    assert(bytes@ == spec_encode_chain(c));
                                    lemma_chain_round_trip(c);
                                }
                            }
                        }
                        Err(e)
                    },
                }
            },
        }
    }
}

} // verus!
