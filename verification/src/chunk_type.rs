//! The four-byte ASCII-alphabetic chunk type tag, whose per-byte letter case
//! (bit 0x20) encodes four boolean properties.

use vstd::prelude::*;

use crate::error::ChunkError;

verus! {

/// True of an ASCII alphabetic byte: `A`..=`Z` or `a`..=`z`.
pub open spec fn spec_is_ascii_alpha(b: u8) -> bool {
    (0x41 <= b && b <= 0x5a) || (0x61 <= b && b <= 0x7a)
}

/// True of a byte whose case bit (0x20) is set, i.e. a lower-case letter.
pub open spec fn spec_bit5_set(b: u8) -> bool {
    b & 0x20 == 0x20
}

/// A well-formed chunk type: exactly four ASCII alphabetic bytes.
pub open spec fn spec_valid_type_bytes(s: Seq<u8>) -> bool {
    s.len() == 4 && forall|i: int| 0 <= i < s.len() ==> spec_is_ascii_alpha(#[trigger] s[i])
}

/// The four type bytes read as ASCII characters.
pub open spec fn spec_display_chars(s: Seq<u8>) -> Seq<char> {
    s.map_values(|b: u8| b as char)
}

/// The case bit of a byte is either fully set or fully clear.
pub proof fn lemma_bit5_cases(b: u8)
    ensures
        b & 0x20 == 0 <==> !spec_bit5_set(b),
{
    assert(b & 0x20 == 0 <==> !(b & 0x20 == 0x20)) by (bit_vector);
}

/// A validated four-byte chunk type tag.
#[derive(Debug, Clone, Copy)]
pub struct ChunkType {
    bytes: [u8; 4],
}

impl View for ChunkType {
    type V = Seq<u8>;

    closed spec fn view(&self) -> Seq<u8> {
        self.bytes@
    }
}

impl PartialEq for ChunkType {
    /// Chunk types are equal exactly when their four bytes are equal.
    fn eq(&self, other: &ChunkType) -> (r: bool) {
        let r = self.bytes[0] == other.bytes[0] && self.bytes[1] == other.bytes[1]
            && self.bytes[2] == other.bytes[2] && self.bytes[3] == other.bytes[3];
        proof {
            if r {
                assert(self@ =~= other@);
            }
        }
        r
    }
}

impl vstd::std_specs::cmp::PartialEqSpecImpl for ChunkType {
    open spec fn obeys_eq_spec() -> bool {
        true
    }

    open spec fn eq_spec(&self, other: &ChunkType) -> bool {
        self@ == other@
    }
}

impl Eq for ChunkType {

}

/// What `ChunkType::from_bytes` returns, at the specification level.
pub open spec fn spec_from_bytes(s: Seq<u8>) -> Result<Seq<u8>, ChunkError>
    recommends
        s.len() == 4,
{
    if spec_valid_type_bytes(s) {
        Ok(s)
    } else {
        Err(ChunkError::InvalidTypeByte)
    }
}

/// What `ChunkType::from_string` returns, at the specification level: the
/// type bytes of a four-character ASCII alphabetic string.
pub open spec fn spec_from_string(s: Seq<char>) -> Result<Seq<u8>, ChunkError> {
    if s.len() != 4 {
        Err(ChunkError::WrongLength)
    } else if !vstd::utf8::is_ascii_chars(s) {
        Err(ChunkError::NonAscii)
    } else {
        spec_from_bytes(s.map_values(|c: char| c as u8))
    }
}

impl ChunkType {
    /// Every chunk type value holds four ASCII alphabetic bytes.
    #[verifier::type_invariant]
    pub open spec fn inv(self) -> bool {
        spec_valid_type_bytes(self@)
    }

    /// Builds a chunk type from four bytes; rejects any byte that is not
    /// ASCII alphabetic.
    pub fn from_bytes(bytes: [u8; 4]) -> (r: Result<ChunkType, ChunkError>)
        ensures
            match spec_from_bytes(bytes@) {
                Ok(s) => r matches Ok(t) && t@ == s,
                Err(e) => r matches Err(e2) && e2 == e,
            },
    {
        let mut i: usize = 0;
        while i < 4
            invariant
                i <= 4,
                forall|j: int| 0 <= j < i ==> spec_is_ascii_alpha(#[trigger] bytes@[j]),
            decreases 4 - i,
        {
            let b = bytes[i];
            if !((b >= 0x41 && b <= 0x5a) || (b >= 0x61 && b <= 0x7a)) {
                return Err(ChunkError::InvalidTypeByte);
            }
            i += 1;
        }
        Ok(ChunkType { bytes })
    }

    /// Builds a chunk type from a string of exactly four ASCII alphabetic
    /// characters.
    pub fn from_string(s: &str) -> (r: Result<ChunkType, ChunkError>)
        ensures
            match spec_from_string(s@) {
                Ok(bs) => r matches Ok(t) && t@ == bs,
                Err(e) => r matches Err(e2) && e2 == e,
            },
    {
        if s.unicode_len() != 4 {
            return Err(ChunkError::WrongLength);
        }
        if !s.is_ascii() {
            return Err(ChunkError::NonAscii);
        }
        let bytes: [u8; 4] = [s.get_ascii(0), s.get_ascii(1), s.get_ascii(2), s.get_ascii(3)];
        proof {
            assert(bytes@ =~= s@.map_values(|c: char| c as u8));
        }
        Self::from_bytes(bytes)
    }

    /// A copy of the four underlying bytes.
    pub fn bytes(&self) -> (r: [u8; 4])
        ensures
            r@ == self@,
    {
        self.bytes
    }

    /// True when the reserved bit (byte 2) is upper-case, as the format
    /// requires of conformant chunk types.
    pub open spec fn spec_is_valid(self) -> bool {
        !spec_bit5_set(self@[2])
    }

    /// True when byte 0 is upper-case: the chunk is critical.
    pub open spec fn spec_is_critical(self) -> bool {
        !spec_bit5_set(self@[0])
    }

    /// True when byte 1 is upper-case: the type is publicly registered.
    pub open spec fn spec_is_public(self) -> bool {
        !spec_bit5_set(self@[1])
    }

    /// True when byte 3 is lower-case: editors may copy the chunk unseen.
    pub open spec fn spec_is_safe_to_copy(self) -> bool {
        spec_bit5_set(self@[3])
    }

    pub fn is_valid(&self) -> (r: bool)
        ensures
            r == self.spec_is_valid(),
    {
        let b = self.bytes[2];
        proof {
            lemma_bit5_cases(b);
        }
        b & 0x20 == 0
    }

    pub fn is_critical(&self) -> (r: bool)
        ensures
            r == self.spec_is_critical(),
    {
        let b = self.bytes[0];
        proof {
            lemma_bit5_cases(b);
        }
        b & 0x20 == 0
    }

    pub fn is_public(&self) -> (r: bool)
        ensures
            r == self.spec_is_public(),
    {
        let b = self.bytes[1];
        proof {
            lemma_bit5_cases(b);
        }
        b & 0x20 == 0
    }

    pub fn is_reserved_bit_valid(&self) -> (r: bool)
        ensures
            r == self.spec_is_valid(),
    {
        self.is_valid()
    }

    pub fn is_safe_to_copy(&self) -> (r: bool)
        ensures
            r == self.spec_is_safe_to_copy(),
    {
        self.bytes[3] & 0x20 == 0x20
    }

    /// The four bytes read as ASCII text, e.g. `"RuSt"`.
    pub fn display(&self) -> (r: String)
        ensures
            r@ == spec_display_chars(self@),
            r@.len() == 4,
    {
        proof {
            use_type_invariant(self);
        }
        let v: Vec<u8> = vstd::slice::slice_to_vec(self.bytes.as_slice());
        proof {
            crate::text::lemma_ascii_bytes_decode(self@);
        }
        match crate::text::utf8_to_string(v.as_slice()) {
            Some(s) => s,
            None => {
                proof {
                    assert(false);
                }
                String::new()
            },
        }
    }
}

/// The flag encoded in byte `i` of a chunk type: critical, public, reserved
/// bit, or safe-to-copy.
pub open spec fn spec_flag(t: ChunkType, i: int) -> bool
    recommends
        0 <= i < 4,
{
    if i == 3 {
        t.spec_is_safe_to_copy()
    } else if i == 2 {
        t.spec_is_valid()
    } else if i == 1 {
        t.spec_is_public()
    } else {
        t.spec_is_critical()
    }
}

/// Toggling the case bit (0x20) of one type byte flips the flag read from
/// that byte and leaves the other three flags unchanged.
pub proof fn lemma_flag_symmetry(t1: ChunkType, t2: ChunkType, i: int)
    requires
        0 <= i < 4,
        t2@[i] == t1@[i] ^ 0x20,
        forall|j: int| 0 <= j < 4 && j != i ==> t2@[j] == t1@[j],
    ensures
        spec_flag(t2, i) == !spec_flag(t1, i),
        forall|j: int| 0 <= j < 4 && j != i ==> spec_flag(t2, j) == spec_flag(t1, j),
{
    let b = t1@[i];
    assert(((b ^ 0x20) & 0x20 == 0x20) <==> !(b & 0x20 == 0x20)) by (bit_vector);
}

/// Reading a rendered chunk type back yields the same type, so rendering it
/// again gives the same text.
pub proof fn lemma_display_idempotent(t: ChunkType)
    requires
        t.inv(),
    ensures
        spec_from_string(spec_display_chars(t@)) == Ok::<Seq<u8>, ChunkError>(t@),
{
    let chars = spec_display_chars(t@);
    assert forall|i: int| 0 <= i < chars.len() implies '\0' <= #[trigger] chars[i] <= '\u{7f}' by {
        assert(spec_is_ascii_alpha(t@[i]));
        assert(t@[i] < 0x80 ==> '\0' <= (t@[i] as char) <= '\u{7f}');
    }
    assert(vstd::utf8::is_ascii_chars(chars));
    assert(chars.map_values(|c: char| c as u8) =~= t@);
}

} // verus!
