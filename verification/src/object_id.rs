//! Store-assigned document identifiers: a fixed-width byte value with a hex
//! transport form. The store model mints fresh identifiers from a counter;
//! client-supplied identifier strings are validated before any lookup.

use vstd::prelude::*;

use crate::error::ApiError;

verus! {

/// Number of bytes in a store-assigned identifier.
pub const ID_BYTES: usize = 12;

/// Number of characters in the hex transport form of an identifier.
pub const ID_HEX_CHARS: usize = 24;

/// The lower-case hex digit character for a nibble value.
pub open spec fn hex_char_of_nibble(n: u8) -> char {
    if n == 0 {
        '0'
    } else if n == 1 {
        '1'
    } else if n == 2 {
        '2'
    } else if n == 3 {
        '3'
    } else if n == 4 {
        '4'
    } else if n == 5 {
        '5'
    } else if n == 6 {
        '6'
    } else if n == 7 {
        '7'
    } else if n == 8 {
        '8'
    } else if n == 9 {
        '9'
    } else if n == 10 {
        'a'
    } else if n == 11 {
        'b'
    } else if n == 12 {
        'c'
    } else if n == 13 {
        'd'
    } else if n == 14 {
        'e'
    } else {
        'f'
    }
}

/// Lower-case hex rendering of a byte sequence: two digits per byte, high
/// nibble first.
pub open spec fn hex_of(bytes: Seq<u8>) -> Seq<char> {
    Seq::new(
        bytes.len() * 2,
        |i: int|
            if i % 2 == 0 {
                hex_char_of_nibble(bytes[i / 2] / 16)
            } else {
                hex_char_of_nibble(bytes[i / 2] % 16)
            },
    )
}

/// Whether a character is a hex digit, in either case.
pub open spec fn is_hex_char(c: char) -> bool {
    (48 <= c as u32 && c as u32 <= 57) || (97 <= c as u32 && c as u32 <= 102) || (65 <= c as u32
        && c as u32 <= 70)
}

/// The nibble value of a hex digit character.
pub open spec fn nibble_of_char(c: char) -> u8 {
    if 48 <= c as u32 && c as u32 <= 57 {
        (c as u32 - 48) as u8
    } else if 97 <= c as u32 && c as u32 <= 102 {
        (c as u32 - 87) as u8
    } else {
        (c as u32 - 55) as u8
    }
}

/// Whether a string is a well-formed identifier in transport form: exactly
/// twice `ID_BYTES` hex digits.
pub open spec fn is_hex_id(s: Seq<char>) -> bool {
    &&& s.len() == ID_HEX_CHARS
    &&& forall|i: int| 0 <= i < s.len() ==> is_hex_char(#[trigger] s[i])
}

/// The bytes denoted by a sequence of hex digit pairs.
pub open spec fn bytes_of_hex(s: Seq<char>) -> Seq<u8> {
    Seq::new(
        s.len() / 2,
        |i: int| (nibble_of_char(s[2 * i]) * 16 + nibble_of_char(s[2 * i + 1])) as u8,
    )
}

/// The identifier bytes minted for the `n`-th insertion: four zero bytes
/// followed by `n` in big-endian order.
pub open spec fn counter_id(n: u64) -> Seq<u8> {
    seq![
        0u8,
        0u8,
        0u8,
        0u8,
        ((n >> 56) & 0xff) as u8,
        ((n >> 48) & 0xff) as u8,
        ((n >> 40) & 0xff) as u8,
        ((n >> 32) & 0xff) as u8,
        ((n >> 24) & 0xff) as u8,
        ((n >> 16) & 0xff) as u8,
        ((n >> 8) & 0xff) as u8,
        (n & 0xff) as u8,
    ]
}

/// Distinct counters mint distinct identifiers, so every identifier the
/// store assigns is fresh.
pub proof fn lemma_counter_id_injective(a: u64, b: u64)
    requires
        counter_id(a) == counter_id(b),
    ensures
        a == b,
{
    assert(counter_id(a)[4] == counter_id(b)[4]);
    assert(counter_id(a)[5] == counter_id(b)[5]);
    assert(counter_id(a)[6] == counter_id(b)[6]);
    assert(counter_id(a)[7] == counter_id(b)[7]);
    assert(counter_id(a)[8] == counter_id(b)[8]);
    assert(counter_id(a)[9] == counter_id(b)[9]);
    assert(counter_id(a)[10] == counter_id(b)[10]);
    assert(counter_id(a)[11] == counter_id(b)[11]);
    assert(a == b) by (bit_vector)
        requires
            ((a >> 56) & 0xff) as u8 == ((b >> 56) & 0xff) as u8,
            ((a >> 48) & 0xff) as u8 == ((b >> 48) & 0xff) as u8,
            ((a >> 40) & 0xff) as u8 == ((b >> 40) & 0xff) as u8,
            ((a >> 32) & 0xff) as u8 == ((b >> 32) & 0xff) as u8,
            ((a >> 24) & 0xff) as u8 == ((b >> 24) & 0xff) as u8,
            ((a >> 16) & 0xff) as u8 == ((b >> 16) & 0xff) as u8,
            ((a >> 8) & 0xff) as u8 == ((b >> 8) & 0xff) as u8,
            (a & 0xff) as u8 == (b & 0xff) as u8,
    ;
}

/// A hex digit's nibble value undoes its rendering.
proof fn lemma_nibble_round_trip(n: u8)
    requires
        n < 16,
    ensures
        is_hex_char(hex_char_of_nibble(n)),
        nibble_of_char(hex_char_of_nibble(n)) == n,
{
}

/// The hex transport form is lossless: the rendering of a well-formed
/// identifier is a well-formed identifier string, and parsing it back yields
/// the same bytes. The identifier a client is given therefore addresses the
/// same document when it comes back.
pub proof fn lemma_hex_round_trip(b: Seq<u8>)
    requires
        b.len() == ID_BYTES,
    ensures
        is_hex_id(hex_of(b)),
        bytes_of_hex(hex_of(b)) == b,
{
    let h = hex_of(b);
    assert forall|i: int| 0 <= i < h.len() implies is_hex_char(#[trigger] h[i]) by {
        if i % 2 == 0 {
            lemma_nibble_round_trip(b[i / 2] / 16);
        } else {
            lemma_nibble_round_trip(b[i / 2] % 16);
        }
    }
    assert forall|i: int| 0 <= i < b.len() implies #[trigger] bytes_of_hex(h)[i] == b[i] by {
        assert(h[2 * i] == hex_char_of_nibble(b[i] / 16));
        assert(h[2 * i + 1] == hex_char_of_nibble(b[i] % 16));
        lemma_nibble_round_trip(b[i] / 16);
        lemma_nibble_round_trip(b[i] % 16);
        assert(bytes_of_hex(h)[i] == ((b[i] / 16) * 16 + b[i] % 16) as u8);
    }
    assert(bytes_of_hex(h) =~= b);
}

/// An opaque, store-assigned document identifier.
#[derive(Debug)]
pub struct ObjectId {
    pub bytes: Vec<u8>,
}

impl View for ObjectId {
    type V = Seq<u8>;

    open spec fn view(&self) -> Seq<u8> {
        self.bytes@
    }
}

impl ObjectId {
    /// A well-formed identifier holds exactly `ID_BYTES` bytes.
    pub open spec fn wf(&self) -> bool {
        self@.len() == ID_BYTES
    }

    pub fn from_bytes(bytes: Vec<u8>) -> (r: ObjectId)
        requires
            bytes@.len() == ID_BYTES,
        ensures
            r@ == bytes@,
            r.wf(),
    {
        ObjectId { bytes }
    }

    /// An owned copy of this identifier.
    pub fn duplicate(&self) -> (r: ObjectId)
        ensures
            r@ == self@,
    {
        let mut bytes: Vec<u8> = Vec::new();
        let mut i: usize = 0;
        while i < self.bytes.len()
            invariant
                i <= self.bytes.len(),
                bytes@ == self@.take(i as int),
            decreases self.bytes.len() - i,
        {
            bytes.push(self.bytes[i]);
            proof {
                assert(bytes@ =~= self@.take(i + 1 as int));
            }
            i = i + 1;
        }
        proof {
            assert(self@.take(self@.len() as int) =~= self@);
        }
        ObjectId { bytes }
    }

    /// The identifier minted for the `n`-th insertion.
    pub fn mint(n: u64) -> (r: ObjectId)
        ensures
            r@ == counter_id(n),
            r.wf(),
    {
        let mut bytes: Vec<u8> = Vec::new();
        bytes.push(0u8);
        bytes.push(0u8);
        bytes.push(0u8);
        bytes.push(0u8);
        bytes.push(((n >> 56) & 0xff) as u8);
        bytes.push(((n >> 48) & 0xff) as u8);
        bytes.push(((n >> 40) & 0xff) as u8);
        bytes.push(((n >> 32) & 0xff) as u8);
        bytes.push(((n >> 24) & 0xff) as u8);
        bytes.push(((n >> 16) & 0xff) as u8);
        bytes.push(((n >> 8) & 0xff) as u8);
        bytes.push((n & 0xff) as u8);
        proof {
            assert(bytes@ =~= counter_id(n));
        }
        ObjectId { bytes }
    }

    /// Whether two identifiers hold the same bytes.
    pub fn eq_id(&self, other: &ObjectId) -> (r: bool)
        ensures
            r == (self@ == other@),
    {
        if self.bytes.len() != other.bytes.len() {
            return false;
        }
        let mut i: usize = 0;
        while i < self.bytes.len()
            invariant
                i <= self.bytes.len(),
                self@.len() == other@.len(),
                forall|j: int| 0 <= j < i ==> self@[j] == other@[j],
            decreases self.bytes.len() - i,
        {
            if self.bytes[i] != other.bytes[i] {
                return false;
            }
            i = i + 1;
        }
        proof {
            assert(self@ =~= other@);
        }
        true
    }

    /// The hex transport form of this identifier.
    pub fn to_hex(&self) -> (r: String)
        ensures
            r@ == hex_of(self@),
    {
        let mut s = String::new();
        let mut i: usize = 0;
        while i < self.bytes.len()
            invariant
                i <= self.bytes.len(),
                s@ == hex_of(self@.take(i as int)),
            decreases self.bytes.len() - i,
        {
            let b = self.bytes[i];
            push_hex_digit(&mut s, b / 16);
            push_hex_digit(&mut s, b % 16);
            proof {
                assert(s@ =~= hex_of(self@.take(i + 1 as int)));
            }
            i = i + 1;
        }
        proof {
            assert(self@.take(self@.len() as int) =~= self@);
        }
        s
    }

    /// Validate a client-supplied identifier string: accepted exactly when it
    /// is `ID_HEX_CHARS` hex digits, in which case the denoted bytes are
    /// returned. Point lookups parse before querying, so a malformed string
    /// never reaches the store.
    pub fn parse(s: &str) -> (r: Result<ObjectId, ApiError>)
        ensures
            r is Ok <==> is_hex_id(s@),
            r is Ok ==> r->Ok_0@ == bytes_of_hex(s@) && r->Ok_0.wf(),
            r is Err ==> r->Err_0 == ApiError::InvalidIdentifier,
    {
        if s.unicode_len() != ID_HEX_CHARS {
            return Err(ApiError::InvalidIdentifier);
        }
        let mut bytes: Vec<u8> = Vec::new();
        let mut i: usize = 0;
        while i < ID_BYTES
            invariant
                i <= ID_BYTES,
                s@.len() == ID_HEX_CHARS,
                bytes@ == bytes_of_hex(s@).take(i as int),
                forall|j: int| 0 <= j < 2 * i ==> is_hex_char(#[trigger] s@[j]),
            decreases ID_BYTES - i,
        {
            let hi = match hex_nibble(s.get_char(2 * i)) {
                Some(v) => v,
                None => {
                    return Err(ApiError::InvalidIdentifier);
                },
            };
            let lo = match hex_nibble(s.get_char(2 * i + 1)) {
                Some(v) => v,
                None => {
                    return Err(ApiError::InvalidIdentifier);
                },
            };
            bytes.push(hi * 16 + lo);
            proof {
                assert(bytes@ =~= bytes_of_hex(s@).take(i + 1 as int));
            }
            i = i + 1;
        }
        proof {
            assert(bytes@ =~= bytes_of_hex(s@));
        }
        Ok(ObjectId { bytes })
    }
}

/// The nibble value of a hex digit character, or `None` for any other
/// character.
fn hex_nibble(c: char) -> (r: Option<u8>)
    ensures
        r is Some <==> is_hex_char(c),
        r is Some ==> r->0 == nibble_of_char(c) && r->0 < 16,
{
    let u = c as u32;
    if 48 <= u && u <= 57 {
        Some((u - 48) as u8)
    } else if 97 <= u && u <= 102 {
        Some((u - 87) as u8)
    } else if 65 <= u && u <= 70 {
        Some((u - 55) as u8)
    } else {
        None
    }
}

/// Append the lower-case hex digit of a nibble to a string.
fn push_hex_digit(s: &mut String, n: u8)
    requires
        n < 16,
    ensures
        final(s)@ == old(s)@ + seq![hex_char_of_nibble(n)],
{
    if n == 0 {
        s.append("0");
        proof {
            reveal_strlit("0");
            assert(s@ =~= old(s)@ + seq![hex_char_of_nibble(n)]);
        }
    } else if n == 1 {
        s.append("1");
        proof {
            reveal_strlit("1");
            assert(s@ =~= old(s)@ + seq![hex_char_of_nibble(n)]);
        }
    } else if n == 2 {
        s.append("2");
        proof {
            reveal_strlit("2");
            assert(s@ =~= old(s)@ + seq![hex_char_of_nibble(n)]);
        }
    } else if n == 3 {
        s.append("3");
        proof {
            reveal_strlit("3");
            assert(s@ =~= old(s)@ + seq![hex_char_of_nibble(n)]);
        }
    } else if n == 4 {
        s.append("4");
        proof {
            reveal_strlit("4");
            assert(s@ =~= old(s)@ + seq![hex_char_of_nibble(n)]);
        }
    } else if n == 5 {
        s.append("5");
        proof {
            reveal_strlit("5");
            assert(s@ =~= old(s)@ + seq![hex_char_of_nibble(n)]);
        }
    } else if n == 6 {
        s.append("6");
        proof {
            reveal_strlit("6");
            assert(s@ =~= old(s)@ + seq![hex_char_of_nibble(n)]);
        }
    } else if n == 7 {
        s.append("7");
        proof {
            reveal_strlit("7");
            assert(s@ =~= old(s)@ + seq![hex_char_of_nibble(n)]);
        }
    } else if n == 8 {
        s.append("8");
        proof {
            reveal_strlit("8");
            assert(s@ =~= old(s)@ + seq![hex_char_of_nibble(n)]);
        }
    } else if n == 9 {
        s.append("9");
        proof {
            reveal_strlit("9");
            assert(s@ =~= old(s)@ + seq![hex_char_of_nibble(n)]);
        }
    } else if n == 10 {
        s.append("a");
        proof {
            reveal_strlit("a");
            assert(s@ =~= old(s)@ + seq![hex_char_of_nibble(n)]);
        }
    } else if n == 11 {
        s.append("b");
        proof {
            reveal_strlit("b");
            assert(s@ =~= old(s)@ + seq![hex_char_of_nibble(n)]);
        }
    } else if n == 12 {
        s.append("c");
        proof {
            reveal_strlit("c");
            assert(s@ =~= old(s)@ + seq![hex_char_of_nibble(n)]);
        }
    } else if n == 13 {
        s.append("d");
        proof {
            reveal_strlit("d");
            assert(s@ =~= old(s)@ + seq![hex_char_of_nibble(n)]);
        }
    } else if n == 14 {
        s.append("e");
        proof {
            reveal_strlit("e");
            assert(s@ =~= old(s)@ + seq![hex_char_of_nibble(n)]);
        }
    } else {
        s.append("f");
        proof {
            reveal_strlit("f");
            assert(s@ =~= old(s)@ + seq![hex_char_of_nibble(n)]);
        }
    }
}

} // verus!
