//! Domain-separated hashing over canonically encoded values.
//!
//! A hasher is seeded with a prefix derived deterministically from a domain
//! tag and a label, and then absorbs the canonical binary encoding of each
//! chained value: fixed-size values as their raw bytes, variable-size
//! values behind a 4-byte little-endian length.  The 32-byte digest is
//! produced by Blake2b over the absorbed bytes; the absorbed bytes
//! themselves are fully specified here.

use vstd::prelude::*;

use digest::Digest;
use tari_crypto::hash::blake2::Blake256;
use vstd::bytes::spec_u32_to_le_bytes;
use vstd::bytes::spec_u64_to_le_bytes;
use vstd::bytes::u32_to_le_bytes;
use vstd::bytes::u64_to_le_bytes;
use vstd::slice::slice_index_get;

verus! {

/// The 32-byte Blake2b digest of a byte sequence, as `tari_crypto`'s
/// `Blake256` computes it.
pub uninterp spec fn blake256_of(data: Seq<u8>) -> Seq<u8>;

/// Relies on `tari_crypto`'s `Blake256` (Blake2b with a 32-byte output),
/// called through `digest::Digest::digest`: the digest is 32 bytes and a
/// function of the input bytes alone.
#[verifier::external_body]
fn blake256_digest(data: &[u8]) -> (r: Vec<u8>)
    ensures
        r@ == blake256_of(data@),
        r@.len() == 32,
{
    Blake256::digest(data).to_vec()
}

/// A deterministic prefix mixed into every hash of one protocol domain:
/// an application identifier and a version.
#[derive(Debug)]
pub struct DomainTag {
    pub application_identifier: Vec<u8>,
    pub version: u8,
}

/// The shortest decimal digits of a byte, as ASCII.
pub open spec fn decimal_ascii(v: u8) -> Seq<u8> {
    if v < 10 {
        seq![(48 + v) as u8]
    } else if v < 100 {
        seq![(48 + v / 10) as u8, (48 + v % 10) as u8]
    } else {
        seq![(48 + v / 100) as u8, (48 + (v / 10) % 10) as u8, (48 + v % 10) as u8]
    }
}

/// The domain separation tag string `{domain}.v{version}.{label}` (the
/// trailing part is left off when the label is empty), as bytes.
pub open spec fn domain_tag_string(domain: Seq<u8>, version: u8, label: Seq<u8>) -> Seq<u8> {
    if label.len() == 0 {
        domain + seq![46u8, 118u8] + decimal_ascii(version)
    } else {
        domain + seq![46u8, 118u8] + decimal_ascii(version) + seq![46u8] + label
    }
}

/// The bytes a hasher is seeded with: the tag string's length as 8
/// little-endian bytes, then the tag string itself.
pub open spec fn domain_prefix(domain: Seq<u8>, version: u8, label: Seq<u8>) -> Seq<u8> {
    spec_u64_to_le_bytes(domain_tag_string(domain, version, label).len() as u64)
        + domain_tag_string(domain, version, label)
}

/// A value to be absorbed into the hash, tagged with how it is encoded.
#[derive(Debug)]
pub enum Encodable {
    /// A fixed-size value: encoded as its raw bytes.
    Fixed(Vec<u8>),
    /// A variable-size value: encoded behind a 4-byte little-endian length.
    Variable(Vec<u8>),
}

/// The length-prefixed encoding of a variable-size byte string.
pub open spec fn encode_variable(b: Seq<u8>) -> Seq<u8> {
    spec_u32_to_le_bytes(b.len() as u32) + b
}

impl Encodable {
    /// The canonical binary encoding of this value.
    pub open spec fn encoding(self) -> Seq<u8> {
        match self {
            Encodable::Fixed(b) => b@,
            Encodable::Variable(b) => encode_variable(b@),
        }
    }
}

/// The concatenated canonical encodings of a sequence of values.
pub open spec fn encodings(values: Seq<Encodable>) -> Seq<u8>
    decreases values.len(),
{
    if values.len() == 0 {
        Seq::<u8>::empty()
    } else {
        values[0].encoding() + encodings(values.drop_first())
    }
}

/// Everything a digest depends on: the domain prefix for the tag and
/// label, then the encodings of the chained values.
pub open spec fn hash_preimage(
    domain: Seq<u8>,
    version: u8,
    label: Seq<u8>,
    values: Seq<Encodable>,
) -> Seq<u8> {
    domain_prefix(domain, version, label) + encodings(values)
}

/// Seeds [`ConsensusHasher`]s with a domain separation prefix.
#[derive(Debug)]
pub struct DomainSeparatedConsensusHasher;

impl DomainSeparatedConsensusHasher {
    /// Starts a hasher over the given tag and label: the hasher has
    /// absorbed exactly the domain prefix.
    pub fn new(tag: &DomainTag, label: &[u8]) -> (h: ConsensusHasher)
        ensures
            h@ == domain_prefix(tag.application_identifier@, tag.version, label@),
    {
        let mut tag_string: Vec<u8> = Vec::new();
        push_bytes(&mut tag_string, tag.application_identifier.as_slice());
        tag_string.push(46);
        tag_string.push(118);
        push_decimal_ascii(&mut tag_string, tag.version);
        if label.len() > 0 {
            tag_string.push(46);
            push_bytes(&mut tag_string, label);
        }
        proof {
            assert(tag_string@ =~= domain_tag_string(
                tag.application_identifier@,
                tag.version,
                label@,
            ));
        }
        let mut buf = u64_to_le_bytes(tag_string.len() as u64);
        push_bytes(&mut buf, tag_string.as_slice());
        let h = ConsensusHasher { buf };
        proof {
            assert(h@ =~= domain_prefix(tag.application_identifier@, tag.version, label@));
        }
        h
    }
}

/// A running hash: a record of the bytes absorbed so far.  Its view is
/// exactly those bytes.
pub struct ConsensusHasher {
    buf: Vec<u8>,
}

impl View for ConsensusHasher {
    type V = Seq<u8>;

    closed spec fn view(&self) -> Seq<u8> {
        self.buf@
    }
}

impl ConsensusHasher {
    /// Absorbs the canonical encoding of one value.
    pub fn update_consensus_encode(&mut self, data: &Encodable)
        requires
            *data matches Encodable::Variable(b) ==> b@.len() <= u32::MAX,
        ensures
            final(self)@ == old(self)@ + data.encoding(),
    {
        match data {
            Encodable::Fixed(b) => {
                push_bytes(&mut self.buf, b.as_slice());
            },
            Encodable::Variable(b) => {
                let len_bytes = u32_to_le_bytes(b.len() as u32);
                push_bytes(&mut self.buf, len_bytes.as_slice());
                push_bytes(&mut self.buf, b.as_slice());
                proof {
                    assert(self.buf@ =~= old(self).buf@ + data.encoding());
                }
            },
        }
    }

    /// Absorbs the canonical encoding of one value, by value.
    pub fn chain(self, data: &Encodable) -> (h: Self)
        requires
            *data matches Encodable::Variable(b) ==> b@.len() <= u32::MAX,
        ensures
            h@ == self@ + data.encoding(),
    {
        let mut h = self;
        h.update_consensus_encode(data);
        h
    }

    /// Absorbs the canonical encodings of a whole sequence of values, in
    /// order.
    pub fn chain_all(self, values: &Vec<Encodable>) -> (h: Self)
        requires
            forall|i: int|
                0 <= i < values@.len() ==> (#[trigger] values@[i] matches Encodable::Variable(b)
                    ==> b@.len() <= u32::MAX),
        ensures
            h@ == self@ + encodings(values@),
    {
        let ghost initial = self@;
        let mut h = self;
        let mut i: usize = 0;
        while i < values.len()
            invariant
                i <= values@.len(),
                h@ == initial + encodings(values@.take(i as int)),
                forall|k: int|
                    0 <= k < values@.len() ==> (#[trigger] values@[k] matches Encodable::Variable(
                        b,
                    ) ==> b@.len() <= u32::MAX),
            decreases values@.len() - i,
        {
            h.update_consensus_encode(slice_index_get(values.as_slice(), i));
            proof {
                lemma_encodings_snoc(values@, i as int);
            }
            i = i + 1;
        }
        proof {
            assert(values@.take(values@.len() as int) =~= values@);
        }
        h
    }

    /// Produces the 32-byte digest of everything absorbed.  The hasher is
    /// consumed: a finalized state cannot be reused.
    pub fn finalize(self) -> (r: Vec<u8>)
        ensures
            r@ == blake256_of(self@),
            r@.len() == 32,
    {
        blake256_digest(self.buf.as_slice())
    }
}

/// The hasher is deterministic: one domain, version, label and sequence of
/// chained values always yield one digest, in whatever run they are
/// hashed.
pub proof fn lemma_hasher_deterministic(
    domain1: Seq<u8>,
    version1: u8,
    label1: Seq<u8>,
    values1: Seq<Encodable>,
    domain2: Seq<u8>,
    version2: u8,
    label2: Seq<u8>,
    values2: Seq<Encodable>,
)
    requires
        domain1 == domain2,
        version1 == version2,
        label1 == label2,
        values1 == values2,
    ensures
        blake256_of(hash_preimage(domain1, version1, label1, values1)) == blake256_of(
            hash_preimage(domain2, version2, label2, values2),
        ),
{
}

/// Taking one more value extends the concatenated encodings by exactly
/// that value's encoding.
proof fn lemma_encodings_snoc(values: Seq<Encodable>, i: int)
    requires
        0 <= i < values.len(),
    ensures
        encodings(values.take(i + 1)) == encodings(values.take(i)) + values[i].encoding(),
    decreases i,
{
    let t1 = values.take(i + 1);
    let t0 = values.take(i);
    if i == 0 {
        assert(t1.drop_first() =~= Seq::<Encodable>::empty());
        assert(encodings(t1) == t1[0].encoding() + encodings(t1.drop_first()));
        assert(encodings(t1) =~= encodings(t0) + values[0].encoding());
    } else {
        lemma_encodings_snoc(values.drop_first(), i - 1);
        assert(t1.drop_first() =~= values.drop_first().take(i));
        assert(t0.drop_first() =~= values.drop_first().take(i - 1));
        assert(values.drop_first()[i - 1] == values[i]);
        assert(encodings(t1) == t1[0].encoding() + encodings(t1.drop_first()));
        assert(encodings(t0) == t0[0].encoding() + encodings(t0.drop_first()));
        assert(encodings(t1) =~= encodings(t0) + values[i].encoding());
    }
}

/// The byte contents of a value, without its encoding's framing.
pub open spec fn content_bytes(v: Encodable) -> Seq<u8> {
    match v {
        Encodable::Fixed(b) => b@,
        Encodable::Variable(b) => b@,
    }
}

/// Whether two values are encoded under the same framing: fixed against
/// fixed of one width, or variable against variable.
pub open spec fn same_shape(v1: Encodable, v2: Encodable) -> bool {
    match (v1, v2) {
        (Encodable::Fixed(a), Encodable::Fixed(b)) => a@.len() == b@.len(),
        (Encodable::Variable(a), Encodable::Variable(b)) => a@.len() <= u32::MAX && b@.len()
            <= u32::MAX,
        _ => false,
    }
}

/// The encoding is unambiguous: no two distinct value sequences of one
/// shape encode to the same byte stream — equal concatenated encodings
/// force equal contents at every position.
pub proof fn lemma_encodings_injective(values1: Seq<Encodable>, values2: Seq<Encodable>)
    requires
        values1.len() == values2.len(),
        forall|i: int| 0 <= i < values1.len() ==> same_shape(values1[i], values2[i]),
        encodings(values1) == encodings(values2),
    ensures
        forall|i: int|
            0 <= i < values1.len() ==> content_bytes(values1[i]) == content_bytes(values2[i]),
    decreases values1.len(),
{
    if values1.len() > 0 {
        let h1 = values1[0];
        let h2 = values2[0];
        let e1 = h1.encoding();
        let e2 = h2.encoding();
        let r1 = encodings(values1.drop_first());
        let r2 = encodings(values2.drop_first());
        vstd::bytes::lemma_auto_spec_u32_to_from_le_bytes();
        assert(same_shape(h1, h2));
        // The head encodings have one length: directly for fixed values,
        // through the 4 length bytes for variable ones.
        match (h1, h2) {
            (Encodable::Fixed(a), Encodable::Fixed(b)) => {
                assert(e1.len() == e2.len());
            },
            (Encodable::Variable(a), Encodable::Variable(b)) => {
                let la = spec_u32_to_le_bytes(a@.len() as u32);
                let lb = spec_u32_to_le_bytes(b@.len() as u32);
                assert(forall|i: int| 0 <= i < 4 ==> (e1 + r1)[i] == la[i]);
                assert(forall|i: int| 0 <= i < 4 ==> (e2 + r2)[i] == lb[i]);
                assert(la =~= lb);
                assert(a@.len() as u32 == b@.len() as u32);
                assert(e1.len() == e2.len());
            },
            _ => {
                assert(false);
            },
        }
        // With equal head lengths the streams split equally into head and
        // tail.
        assert(e1 + r1 == e2 + r2);
        assert((e1 + r1).len() == e1.len() + r1.len());
        assert((e2 + r2).len() == e2.len() + r2.len());
        assert(r1.len() == r2.len());
        assert(forall|i: int| 0 <= i < e1.len() ==> e1[i] == (e1 + r1)[i]);
        assert(forall|i: int| 0 <= i < e2.len() ==> e2[i] == (e2 + r2)[i]);
        assert(e1 =~= e2);
        assert(forall|j: int| 0 <= j < r1.len() ==> r1[j] == (e1 + r1)[e1.len() + j]);
        assert(forall|j: int| 0 <= j < r2.len() ==> r2[j] == (e2 + r2)[e2.len() + j]);
        assert(r1 =~= r2);
        match (h1, h2) {
            (Encodable::Fixed(a), Encodable::Fixed(b)) => {
                assert(content_bytes(h1) =~= content_bytes(h2));
            },
            (Encodable::Variable(a), Encodable::Variable(b)) => {
                assert(forall|i: int| 0 <= i < a@.len() ==> a@[i] == e1[4 + i]);
                assert(forall|i: int| 0 <= i < b@.len() ==> b@[i] == e2[4 + i]);
                assert(content_bytes(h1) =~= content_bytes(h2));
            },
            _ => {
                assert(false);
            },
        }
        assert forall|i: int|
            0 <= i < values1.drop_first().len() implies same_shape(
            #[trigger] values1.drop_first()[i],
            values2.drop_first()[i],
        ) by {
            assert(values1.drop_first()[i] == values1[i + 1]);
            assert(values2.drop_first()[i] == values2[i + 1]);
            assert(same_shape(values1[i + 1], values2[i + 1]));
        }
        lemma_encodings_injective(values1.drop_first(), values2.drop_first());
        assert forall|i: int|
            1 <= i < values1.len() implies content_bytes(#[trigger] values1[i]) == content_bytes(
            values2[i],
        ) by {
            assert(values1[i] == values1.drop_first()[i - 1]);
            assert(values2[i] == values2.drop_first()[i - 1]);
            assert(content_bytes(values1.drop_first()[i - 1]) == content_bytes(
                values2.drop_first()[i - 1],
            ));
        }
    }
}

/// Changing the label alone changes the bytes that are hashed: under one
/// domain and version, two different labels never yield the same hash
/// input, whatever values are chained after either.
pub proof fn lemma_label_separates_preimage(
    domain: Seq<u8>,
    version: u8,
    label1: Seq<u8>,
    label2: Seq<u8>,
    values1: Seq<Encodable>,
    values2: Seq<Encodable>,
)
    requires
        label1 != label2,
        domain.len() + label1.len() + 16 < 0x10000000000000000,
        domain.len() + label2.len() + 16 < 0x10000000000000000,
    ensures
        hash_preimage(domain, version, label1, values1) != hash_preimage(
            domain,
            version,
            label2,
            values2,
        ),
{
    let dig = decimal_ascii(version);
    let t1 = domain_tag_string(domain, version, label1);
    let t2 = domain_tag_string(domain, version, label2);
    let le1 = spec_u64_to_le_bytes(t1.len() as u64);
    let le2 = spec_u64_to_le_bytes(t2.len() as u64);
    let pre1 = hash_preimage(domain, version, label1, values1);
    let pre2 = hash_preimage(domain, version, label2, values2);
    vstd::bytes::lemma_auto_spec_u64_to_from_le_bytes();
    assert(dig.len() <= 3);
    assert(t1.len() < 0x10000000000000000);
    assert(t2.len() < 0x10000000000000000);
    if pre1 == pre2 {
        // The eight length bytes stand first in both preimages, so the tag
        // string lengths agree.
        assert(forall|i: int| 0 <= i < 8 ==> pre1[i] == le1[i]);
        assert(forall|i: int| 0 <= i < 8 ==> pre2[i] == le2[i]);
        assert(le1 =~= le2);
        assert(t1.len() as u64 == t2.len() as u64);
        assert(t1.len() == t2.len());
        if label1.len() == 0 && label2.len() == 0 {
            assert(label1 =~= label2);
        } else {
            assert(label1.len() == label2.len());
            // The tag strings agree byte for byte, hence so do the labels.
            assert(forall|j: int| 0 <= j < t1.len() ==> pre1[8 + j] == t1[j]);
            assert(forall|j: int| 0 <= j < t2.len() ==> pre2[8 + j] == t2[j]);
            assert(t1 =~= t2);
            let base = domain.len() + 2 + dig.len() + 1;
            assert(forall|i: int| 0 <= i < label1.len() ==> t1[base + i] == label1[i]);
            assert(forall|i: int| 0 <= i < label2.len() ==> t2[base + i] == label2[i]);
            assert(label1 =~= label2);
        }
        assert(false);
    }
}

/// Appends a byte slice to a vector.
fn push_bytes(out: &mut Vec<u8>, src: &[u8])
    ensures
        final(out)@ == old(out)@ + src@,
{
    let mut i: usize = 0;
    while i < src.len()
        invariant
            i <= src@.len(),
            out@ == old(out)@ + src@.subrange(0, i as int),
        decreases src@.len() - i,
    {
        out.push(*slice_index_get(src, i));
        proof {
            assert(out@ =~= old(out)@ + src@.subrange(0, i + 1));
        }
        i = i + 1;
    }
    proof {
        assert(out@ =~= old(out)@ + src@);
    }
}

/// Appends the shortest decimal digits of a byte, as ASCII.
fn push_decimal_ascii(out: &mut Vec<u8>, v: u8)
    ensures
        final(out)@ == old(out)@ + decimal_ascii(v),
{
    if v < 10 {
        out.push(48 + v);
        proof {
            assert(out@ =~= old(out)@ + decimal_ascii(v));
        }
    } else if v < 100 {
        out.push(48 + v / 10);
        out.push(48 + v % 10);
        proof {
            assert(out@ =~= old(out)@ + decimal_ascii(v));
        }
    } else {
        out.push(48 + v / 100);
        out.push(48 + (v / 10) % 10);
        out.push(48 + v % 10);
        proof {
            assert(out@ =~= old(out)@ + decimal_ascii(v));
        }
    }
}

} // verus!
