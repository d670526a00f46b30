//! The chunk record: a length prefix, a chunk type, an owned payload, and a
//! CRC-32 checksum, with its bit-exact wire layout.

use vstd::prelude::*;

use crate::chunk_type::{spec_display_chars, spec_valid_type_bytes, ChunkType};
use crate::crc32::{crc32, crc32_of};
use crate::error::ChunkError;
use crate::text::spec_dec_digits;
use crate::wire::{
    push_slice, push_u32_be, spec_u32_from_be_bytes, spec_u32_to_be_bytes, u32_from_be,
};

verus! {

/// The format cap on a chunk's payload length: 2^31 - 1.
pub const MAX_LENGTH: u32 = 0x7fff_ffff;

/// The wire form of a chunk: big-endian length, four type bytes, the payload,
/// and the big-endian CRC.
pub open spec fn spec_serialize(length: u32, t: Seq<u8>, data: Seq<u8>, crc: u32) -> Seq<u8> {
    spec_u32_to_be_bytes(length) + t + data + spec_u32_to_be_bytes(crc)
}

/// What parsing a byte buffer yields: the length, type bytes, payload and CRC
/// of the leading chunk, or the exact error, following the wire layout.
pub open spec fn spec_parse(b: Seq<u8>) -> Result<(u32, Seq<u8>, Seq<u8>, u32), ChunkError> {
    if b.len() < 12 {
        Err(ChunkError::Truncated)
    } else {
        let length = spec_u32_from_be_bytes(b.subrange(0, 4));
        if length > MAX_LENGTH {
            Err(ChunkError::LengthTooLarge)
        } else if b.len() < 12 + length {
            Err(ChunkError::Truncated)
        } else {
            let t = b.subrange(4, 8);
            if !spec_valid_type_bytes(t) {
                Err(ChunkError::InvalidTypeByte)
            } else {
                let data = b.subrange(8, 8 + length as int);
                let stored = spec_u32_from_be_bytes(
                    b.subrange(8 + length as int, 12 + length as int),
                );
                let computed = crc32_of(b.subrange(4, 8 + length as int));
                if stored != computed {
                    Err(ChunkError::ChecksumMismatch { expected: computed, found: stored })
                } else {
                    Ok((length, t, data, stored))
                }
            }
        }
    }
}

/// A length-prefixed, CRC-protected record.
#[derive(Debug)]
pub struct Chunk {
    length: u32,
    chunk_type: ChunkType,
    data: Vec<u8>,
    crc: u32,
}

impl Chunk {
    /// The payload length field.
    pub closed spec fn spec_length(self) -> u32 {
        self.length
    }

    /// The chunk type tag.
    pub closed spec fn spec_chunk_type(self) -> ChunkType {
        self.chunk_type
    }

    /// The payload bytes.
    pub closed spec fn spec_data(self) -> Seq<u8> {
        self.data@
    }

    /// The stored CRC-32 checksum.
    pub closed spec fn spec_crc(self) -> u32 {
        self.crc
    }

    /// Every chunk value keeps its length equal to its payload size, within
    /// the format cap, and its CRC equal to the checksum of type and payload.
    #[verifier::type_invariant]
    pub open spec fn inv(self) -> bool {
        &&& self.spec_length() == self.spec_data().len()
        &&& self.spec_data().len() <= MAX_LENGTH
        &&& self.spec_crc() == crc32_of(self.spec_chunk_type()@ + self.spec_data())
    }

    /// Builds a chunk from a type and an owned payload, computing the CRC
    /// over the four type bytes followed by the payload.
    pub fn new(chunk_type: ChunkType, data: Vec<u8>) -> (r: Chunk)
        requires
            data@.len() <= MAX_LENGTH,
        ensures
            r.spec_chunk_type() == chunk_type,
            r.spec_data() == data@,
            r.spec_length() == data@.len(),
            r.spec_crc() == crc32_of(chunk_type@ + data@),
    {
        let mut buf: Vec<u8> = Vec::new();
        let tb = chunk_type.bytes();
        push_slice(&mut buf, tb.as_slice());
        push_slice(&mut buf, data.as_slice());
        proof {
            assert(buf@ =~= chunk_type@ + data@);
        }
        let checksum = crc32(buf.as_slice());
        let length = data.len() as u32;
        Chunk { length, chunk_type, data, crc: checksum }
    }

    /// The payload length.
    pub fn length(&self) -> (r: u32)
        ensures
            r == self.spec_length(),
            r == self.spec_data().len(),
    {
        proof {
            use_type_invariant(self);
        }
        self.length
    }

    /// The chunk type tag.
    pub fn chunk_type(&self) -> (r: &ChunkType)
        ensures
            *r == self.spec_chunk_type(),
    {
        &self.chunk_type
    }

    /// The payload bytes.
    pub fn data(&self) -> (r: &[u8])
        ensures
            r@ == self.spec_data(),
    {
        self.data.as_slice()
    }

    /// The stored CRC, always the CRC-32/ISO-HDLC checksum of the four type
    /// bytes followed by the payload.
    pub fn crc(&self) -> (r: u32)
        ensures
            r == self.spec_crc(),
            r == crc32_of(self.spec_chunk_type()@ + self.spec_data()),
    {
        proof {
            use_type_invariant(self);
        }
        self.crc
    }

    /// The payload read as UTF-8 text; fails exactly when the payload is not
    /// valid UTF-8.
    pub fn data_as_string(&self) -> (r: Result<String, ChunkError>)
        ensures
            r is Ok <==> vstd::utf8::valid_utf8(self.spec_data()),
            r matches Ok(s) ==> s@ == vstd::utf8::decode_utf8(self.spec_data()),
            r matches Err(e) ==> e == ChunkError::InvalidUtf8,
    {
        match crate::text::utf8_to_string(self.data.as_slice()) {
            Some(s) => Ok(s),
            None => Err(ChunkError::InvalidUtf8),
        }
    }

    /// Serializes the chunk to its wire form of exactly `12 + length` bytes.
    pub fn as_bytes(&self) -> (r: Vec<u8>)
        ensures
            r@ == spec_serialize(
                self.spec_length(),
                self.spec_chunk_type()@,
                self.spec_data(),
                self.spec_crc(),
            ),
            r@.len() == 12 + self.spec_data().len(),
    {
        proof {
            use_type_invariant(self);
        }
        let mut out: Vec<u8> = Vec::new();
        push_u32_be(&mut out, self.length);
        let tb = self.chunk_type.bytes();
        push_slice(&mut out, tb.as_slice());
        push_slice(&mut out, self.data.as_slice());
        push_u32_be(&mut out, self.crc);
        proof {
            assert(out@ =~= spec_serialize(
                self.spec_length(),
                self.spec_chunk_type()@,
                self.spec_data(),
                self.spec_crc(),
            ));
        }
        out
    }

    /// The serialized size, `12 + length`, without materializing the bytes.
    pub fn size(&self) -> (r: usize)
        ensures
            r == 12 + self.spec_data().len(),
    {
        proof {
            use_type_invariant(self);
        }
        (12 + self.length) as usize
    }

    /// A short human-readable summary: length, type and CRC.
    pub fn display(&self) -> (r: String)
        ensures
            r@ == spec_dec_digits(self.spec_length() as nat) + " - "@ + spec_display_chars(
                self.spec_chunk_type()@,
            ) + " - "@ + spec_dec_digits(self.spec_crc() as nat),
    {
        let ts = self.chunk_type.display();
        crate::text::format_summary(self.length, ts.as_str(), self.crc)
    }

    /// Parses the leading chunk of a byte buffer, verifying its length field,
    /// its type bytes and its checksum; all-or-nothing.
    pub fn parse(bytes: &[u8]) -> (r: Result<Chunk, ChunkError>)
        ensures
            match spec_parse(bytes@) {
                Ok(p) => r matches Ok(c) && c.spec_length() == p.0 && c.spec_chunk_type()@ == p.1
                    && c.spec_data() == p.2 && c.spec_crc() == p.3,
                Err(e) => r matches Err(e2) && e2 == e,
            },
    {
        if bytes.len() < 12 {
            return Err(ChunkError::Truncated);
        }
        let length = u32_from_be(bytes[0], bytes[1], bytes[2], bytes[3]);
        proof {
            assert(seq![bytes@[0], bytes@[1], bytes@[2], bytes@[3]] =~= bytes@.subrange(0, 4));
        }
        if length > MAX_LENGTH {
            return Err(ChunkError::LengthTooLarge);
        }
        if bytes.len() - 12 < length as usize {
            return Err(ChunkError::Truncated);
        }
        let end: usize = 8 + length as usize;
        let type_arr: [u8; 4] = [bytes[4], bytes[5], bytes[6], bytes[7]];
        proof {
            assert(type_arr@ =~= bytes@.subrange(4, 8));
        }
        let chunk_type = match ChunkType::from_bytes(type_arr) {
            Ok(t) => t,
            Err(e) => {
                return Err(e);
            },
        };
        let data: Vec<u8> = vstd::slice::slice_to_vec(
            vstd::slice::slice_subrange(bytes, 8, end),
        );
        let stored = u32_from_be(bytes[end], bytes[end + 1], bytes[end + 2], bytes[end + 3]);
        proof {
            assert(seq![bytes@[end as int], bytes@[end + 1], bytes@[end + 2], bytes@[end + 3]]
                =~= bytes@.subrange(end as int, end + 4));
        }
        let computed = crc32(vstd::slice::slice_subrange(bytes, 4, end));
        if stored != computed {
            return Err(ChunkError::ChecksumMismatch { expected: computed, found: stored });
        }
        proof {
            assert(chunk_type@ + data@ =~= bytes@.subrange(4, end as int));
        }
        Ok(Chunk { length, chunk_type, data, crc: stored })
    }
}

/// Round trip: parsing the serialization of a record built from a valid type,
/// a payload within the cap, and the matching checksum yields the record back.
pub proof fn lemma_round_trip(t: Seq<u8>, data: Seq<u8>, crc: u32)
    requires
        spec_valid_type_bytes(t),
        data.len() <= MAX_LENGTH,
        crc == crc32_of(t + data),
    ensures
        spec_parse(spec_serialize(data.len() as u32, t, data, crc)) == Ok::<
            (u32, Seq<u8>, Seq<u8>, u32),
            ChunkError,
        >((data.len() as u32, t, data, crc)),
{
    let length = data.len() as u32;
    let b = spec_serialize(length, t, data, crc);
    crate::wire::lemma_u32_be_bytes_roundtrip();
    assert(b.len() == 12 + data.len());
    assert(b.subrange(0, 4) =~= spec_u32_to_be_bytes(length));
    assert(b.subrange(4, 8) =~= t);
    assert(b.subrange(8, 8 + length as int) =~= data);
    assert(b.subrange(8 + length as int, 12 + length as int) =~= spec_u32_to_be_bytes(crc));
    assert(b.subrange(4, 8 + length as int) =~= t + data);
}

/// No tampered buffer forges the original record: parsing a buffer of the
/// same size that differs anywhere from a chunk's serialized form either
/// fails or yields a record other than that chunk.
pub proof fn lemma_tamper_never_forges(t: Seq<u8>, data: Seq<u8>, crc: u32, tampered: Seq<u8>)
    requires
        spec_valid_type_bytes(t),
        data.len() <= MAX_LENGTH,
        crc == crc32_of(t + data),
        tampered.len() == spec_serialize(data.len() as u32, t, data, crc).len(),
        tampered != spec_serialize(data.len() as u32, t, data, crc),
    ensures
        spec_parse(tampered) != Ok::<(u32, Seq<u8>, Seq<u8>, u32), ChunkError>(
            (data.len() as u32, t, data, crc),
        ),
{
    let length = data.len() as u32;
    let b = spec_serialize(length, t, data, crc);
    lemma_round_trip(t, data, crc);
    crate::wire::lemma_u32_be_bytes_roundtrip();
    assert(b.len() == 12 + data.len());
    if spec_parse(tampered) == Ok::<(u32, Seq<u8>, Seq<u8>, u32), ChunkError>(
        (length, t, data, crc),
    ) {
        let parsed_length = spec_u32_from_be_bytes(tampered.subrange(0, 4));
        assert(parsed_length == length);
        assert(tampered.subrange(0, 4) =~= spec_u32_to_be_bytes(parsed_length));
        assert(b.subrange(0, 4) =~= spec_u32_to_be_bytes(length));
        assert(tampered.subrange(4, 8) == t);
        assert(b.subrange(4, 8) =~= t);
        assert(tampered.subrange(8, 8 + length as int) == data);
        assert(b.subrange(8, 8 + length as int) =~= data);
        let stored = spec_u32_from_be_bytes(
            tampered.subrange(8 + length as int, 12 + length as int),
        );
        assert(stored == crc);
        assert(tampered.subrange(8 + length as int, 12 + length as int) =~= spec_u32_to_be_bytes(
            stored,
        ));
        assert(b.subrange(8 + length as int, 12 + length as int) =~= spec_u32_to_be_bytes(crc));
        assert forall|i: int| 0 <= i < tampered.len() implies tampered[i] == b[i] by {
            if i < 4 {
                assert(tampered[i] == tampered.subrange(0, 4)[i]);
                assert(b[i] == b.subrange(0, 4)[i]);
            } else if i < 8 {
                assert(tampered[i] == tampered.subrange(4, 8)[i - 4]);
                assert(b[i] == b.subrange(4, 8)[i - 4]);
            } else if i < 8 + length {
                assert(tampered[i] == tampered.subrange(8, 8 + length as int)[i - 8]);
                assert(b[i] == b.subrange(8, 8 + length as int)[i - 8]);
            } else {
                assert(tampered[i] == tampered.subrange(8 + length as int, 12 + length as int)[i
                    - 8 - length]);
                assert(b[i] == b.subrange(8 + length as int, 12 + length as int)[i - 8 - length]);
            }
        }
        assert(tampered =~= b);
    }
}

/// Tamper detection for the checksum field: any change confined to the last
/// four bytes of a serialized chunk makes parsing fail with a checksum
/// mismatch that reports the expected and the found value.
pub proof fn lemma_crc_tamper_detected(t: Seq<u8>, data: Seq<u8>, crc: u32, tampered: Seq<u8>)
    requires
        spec_valid_type_bytes(t),
        data.len() <= MAX_LENGTH,
        crc == crc32_of(t + data),
        tampered.len() == spec_serialize(data.len() as u32, t, data, crc).len(),
        tampered.subrange(0, tampered.len() - 4) == spec_serialize(
            data.len() as u32,
            t,
            data,
            crc,
        ).subrange(0, tampered.len() - 4),
        tampered != spec_serialize(data.len() as u32, t, data, crc),
    ensures
        spec_parse(tampered) == Err::<(u32, Seq<u8>, Seq<u8>, u32), ChunkError>(
            ChunkError::ChecksumMismatch {
                expected: crc,
                found: spec_u32_from_be_bytes(
                    tampered.subrange(tampered.len() - 4, tampered.len() as int),
                ),
            },
        ),
{
    let length = data.len() as u32;
    let b = spec_serialize(length, t, data, crc);
    lemma_round_trip(t, data, crc);
    crate::wire::lemma_u32_be_bytes_roundtrip();
    assert(b.len() == 12 + data.len());
    let pre = tampered.subrange(0, tampered.len() - 4);
    assert forall|i: int| 0 <= i < b.len() - 4 implies tampered[i] == b[i] by {
        assert(pre[i] == b.subrange(0, tampered.len() - 4)[i]);
    }
    assert(tampered.subrange(0, 4) =~= b.subrange(0, 4));
    assert(tampered.subrange(4, 8) =~= b.subrange(4, 8));
    assert(tampered.subrange(8, 8 + length as int) =~= b.subrange(8, 8 + length as int));
    assert(tampered.subrange(4, 8 + length as int) =~= b.subrange(4, 8 + length as int));
    let last = tampered.subrange(8 + length as int, 12 + length as int);
    let stored = spec_u32_from_be_bytes(last);
    if stored == crc {
        assert(spec_u32_to_be_bytes(stored) =~= last);
        assert(tampered =~= b);
    }
    assert(stored != crc);
    assert(tampered.subrange(tampered.len() - 4, tampered.len() as int) =~= last);
}

} // verus!
