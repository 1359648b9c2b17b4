//! Encoding and decoding of WebSocket frame headers, and payload masking.
use vstd::prelude::*;

verus! {

/// Why a frame or message was refused.
#[derive(Clone, Copy, Debug, PartialEq, Eq, Structural)]
pub enum Error {
    /// A control frame announced a payload of 126 bytes or more.
    InvalidLength,
    /// A frame that breaks the framing rules (a fragmented control frame, a
    /// continuation with nothing to continue, a payload of the wrong size).
    InvalidDataFrame,
    /// The opcode is one of the reserved values.
    ReservedOpcode,
    /// A text payload, or the reason of a close payload, is not UTF-8.
    NonUtf8Text,
    /// The bytes end before the header does.
    PrematureFinish,
}

/// The opcode of a frame.
#[derive(Clone, Copy, Debug, PartialEq, Eq, Hash, Structural)]
pub enum Kind {
    Continuation,
    Text,
    Binary,
    Close,
    Ping,
    Pong,
}

impl Kind {
    pub open spec fn spec_is_control(self) -> bool {
        match self {
            Kind::Close | Kind::Ping | Kind::Pong => true,
            _ => false,
        }
    }

    /// The 4-bit opcode that stands for this kind on the wire.
    pub open spec fn spec_opcode(self) -> u8 {
        match self {
            Kind::Continuation => 0,
            Kind::Text => 1,
            Kind::Binary => 2,
            Kind::Close => 8,
            Kind::Ping => 9,
            Kind::Pong => 10,
        }
    }

    /// Whether frames of this kind are control frames (close, ping, pong).
    pub fn is_control(&self) -> (r: bool)
        ensures
            r == self.spec_is_control(),
    {
        match *self {
            Kind::Continuation | Kind::Text | Kind::Binary => false,
            Kind::Close | Kind::Ping | Kind::Pong => true,
        }
    }

    pub fn opcode(&self) -> (r: u8)
        ensures
            r == self.spec_opcode(),
    {
        match *self {
            Kind::Continuation => 0,
            Kind::Text => 1,
            Kind::Binary => 2,
            Kind::Close => 8,
            Kind::Ping => 9,
            Kind::Pong => 10,
        }
    }

    /// The kind that a 4-bit opcode stands for; `None` for the reserved values.
    pub fn from_opcode(op: u8) -> (r: Option<Kind>)
        ensures
            r == kind_of_opcode(op),
    {
        match op {
            0 => Some(Kind::Continuation),
            1 => Some(Kind::Text),
            2 => Some(Kind::Binary),
            8 => Some(Kind::Close),
            9 => Some(Kind::Ping),
            10 => Some(Kind::Pong),
            _ => None,
        }
    }
}

pub open spec fn kind_of_opcode(op: u8) -> Option<Kind> {
    if op == 0 {
        Some(Kind::Continuation)
    } else if op == 1 {
        Some(Kind::Text)
    } else if op == 2 {
        Some(Kind::Binary)
    } else if op == 8 {
        Some(Kind::Close)
    } else if op == 9 {
        Some(Kind::Ping)
    } else if op == 10 {
        Some(Kind::Pong)
    } else {
        None
    }
}

/// The four bytes that a masked payload is XORed with.
#[derive(Clone, Copy, Debug, PartialEq, Eq, Hash)]
pub struct MaskingKey {
    key: [u8; 4],
}

impl View for MaskingKey {
    type V = Seq<u8>;

    closed spec fn view(&self) -> Seq<u8> {
        self.key@
    }
}

/// `payload` XORed byte by byte with `key` repeated.
pub open spec fn masked(key: Seq<u8>, payload: Seq<u8>) -> Seq<u8>
    recommends
        key.len() == 4,
{
    Seq::new(payload.len(), |i: int| payload[i] ^ key[i % 4])
}

impl MaskingKey {
    pub proof fn lemma_len(&self)
        ensures
            self@.len() == 4,
    {
    }

    /// A fresh key from the operating system's randomness source; `None` when
    /// that source fails.
    pub fn new() -> (r: Option<MaskingKey>) {
        let mut v: Vec<u8> = vec![0u8; 4];
        if !super::fill_random(&mut v) {
            return None;
        }
        Some(MaskingKey { key: [v[0], v[1], v[2], v[3]] })
    }

    pub fn from_bytes(key: [u8; 4]) -> (r: MaskingKey)
        ensures
            r@ == key@,
    {
        MaskingKey { key }
    }

    pub fn to_bytes(&self) -> (r: [u8; 4])
        ensures
            r@ == self@,
    {
        self.key
    }

    /// XORs byte `i` of `payload` with byte `i % 4` of the key, in place.
    pub fn apply(&self, payload: &mut Vec<u8>)
        ensures
            final(payload)@ == masked(self@, old(payload)@),
    {
        let n = payload.len();
        let mut i: usize = 0;
        while i < n
            invariant
                n == old(payload)@.len(),
                payload@.len() == n,
                i <= n,
                forall|j: int| 0 <= j < i ==> payload@[j] == old(payload)@[j] ^ self.key@[j % 4],
                forall|j: int| i <= j < n ==> payload@[j] == old(payload)@[j],
            decreases n - i,
        {
            let b = payload[i] ^ self.key[i % 4];
            payload.set(i, b);
            i = i + 1;
        }
        assert(payload@ =~= masked(self@, old(payload)@));
    }
}

/// Masking twice with the same key gives the payload back.
pub proof fn lemma_mask_involutive(key: Seq<u8>, payload: Seq<u8>)
    requires
        key.len() == 4,
    ensures
        masked(key, masked(key, payload)) == payload,
{
    assert forall|i: int| 0 <= i < payload.len() implies masked(key, masked(key, payload))[i]
        == payload[i] by {
        let p = payload[i];
        let k = key[i % 4];
        assert((p ^ k) ^ k == p) by (bit_vector);
    }
    assert(masked(key, masked(key, payload)) =~= payload);
}

/// One frame header.
#[derive(Clone, Copy, Debug, PartialEq, Eq, Hash)]
pub struct Header {
    pub is_final: bool,
    pub extensions: [bool; 3],
    pub kind: Kind,
    pub payload_len: u64,
    pub masking_key: Option<MaskingKey>,
}

/// The encoded form of a header: at most 14 bytes.
pub struct HeaderBytes {
    bytes: [u8; 14],
    len: u8,
}

impl View for HeaderBytes {
    type V = Seq<u8>;

    closed spec fn view(&self) -> Seq<u8> {
        self.bytes@.subrange(0, self.len as int)
    }
}

impl HeaderBytes {
    pub closed spec fn wf(&self) -> bool {
        2 <= self.len <= 14
    }

    pub fn as_slice(&self) -> (r: &[u8])
        requires
            self.wf(),
        ensures
            r@ == self@,
    {
        vstd::slice::slice_subrange(self.bytes.as_slice(), 0, self.len as usize)
    }
}

pub open spec fn bit(b: bool, weight: u8) -> u8 {
    if b {
        weight
    } else {
        0
    }
}

/// Big-endian value of two bytes.
pub open spec fn be16(b0: u8, b1: u8) -> u64 {
    ((b0 as u64) << 8u64) | (b1 as u64)
}

/// Big-endian value of eight bytes.
pub open spec fn be64(b: Seq<u8>) -> u64 {
    ((b[0] as u64) << 56u64) | ((b[1] as u64) << 48u64) | ((b[2] as u64) << 40u64) | ((
    b[3] as u64) << 32u64) | ((b[4] as u64) << 24u64) | ((b[5] as u64) << 16u64) | ((
    b[6] as u64) << 8u64) | (b[7] as u64)
}

/// Byte `i` (0 is the most significant) of the big-endian form of `x`.
pub open spec fn be_byte(x: u64, i: u64) -> u8 {
    ((x >> (56u64 - 8 * i)) & 0xffu64) as u8
}

impl Header {
    /// The header obeys the rule on control frames: final, and a payload
    /// under 126 bytes.
    pub open spec fn valid(self) -> bool {
        self.kind.spec_is_control() ==> (self.is_final && self.payload_len < 126)
    }

    pub open spec fn first_byte(self) -> u8 {
        (bit(self.is_final, 128) + bit(self.extensions@[0], 64) + bit(self.extensions@[1], 32)
            + bit(self.extensions@[2], 16) + self.kind.spec_opcode()) as u8
    }

    /// The 7-bit length field.
    pub open spec fn short_len(self) -> u8 {
        if self.payload_len > 65535 {
            127
        } else if self.payload_len > 125 {
            126
        } else {
            self.payload_len as u8
        }
    }

    pub open spec fn second_byte(self) -> u8 {
        (bit(self.masking_key is Some, 128) + self.short_len()) as u8
    }

    pub open spec fn length_bytes(self) -> Seq<u8> {
        if self.payload_len > 65535 {
            Seq::new(8, |i: int| be_byte(self.payload_len, i as u64))
        } else if self.payload_len > 125 {
            seq![(self.payload_len >> 8u64) as u8, (self.payload_len & 0xffu64) as u8]
        } else {
            seq![]
        }
    }

    pub open spec fn mask_bytes(self) -> Seq<u8> {
        match self.masking_key {
            Some(k) => k@,
            None => seq![],
        }
    }

    /// The wire form of the header.
    pub open spec fn encoding(self) -> Seq<u8> {
        seq![self.first_byte(), self.second_byte()] + self.length_bytes() + self.mask_bytes()
    }
}

impl Header {
    /// How many bytes follow the first two in a header whose second byte is
    /// `second`: a reader takes two bytes, then this many more.
    pub fn remaining_len(second: u8) -> (r: usize)
        ensures
            r == header_len(second) - 2,
    {
        let short = second % 128;
        let ext: usize = if short == 126 {
            2
        } else if short == 127 {
            8
        } else {
            0
        };
        if second >= 128 {
            ext + 4
        } else {
            ext
        }
    }

    /// Decodes the header at the start of `bytes`, and returns it with its
    /// length. The opcode and the rule on control frames are checked on the
    /// first two bytes, before the rest of the header is needed.
    pub fn read(bytes: &[u8]) -> (r: Result<(Header, usize), Error>)
        ensures
            match r {
                Ok((h, n)) => header_error(bytes@) is None && describes(bytes@, h) && n
                    == header_len(bytes@[1]),
                Err(e) => header_error(bytes@) == Some(e),
            },
    {
        if bytes.len() < 2 {
            return Err(Error::PrematureFinish);
        }
        let first = bytes[0];
        let second = bytes[1];
        let kind = match Kind::from_opcode(first % 16) {
            Some(k) => k,
            None => return Err(Error::ReservedOpcode),
        };
        let short = second % 128;
        if kind.is_control() {
            if short >= 126 {
                return Err(Error::InvalidLength);
            }
            if first < 128 {
                return Err(Error::InvalidDataFrame);
            }
        }
        let total = 2 + Self::remaining_len(second);
        if bytes.len() < total {
            return Err(Error::PrematureFinish);
        }
        let ext: usize = if short == 126 {
            2
        } else if short == 127 {
            8
        } else {
            0
        };
        let payload_len: u64 = if short == 126 {
            ((bytes[2] as u64) << 8u64) | (bytes[3] as u64)
        } else if short == 127 {
            proof {
                assert(bytes@.subrange(2, 10)[0] == bytes@[2]);
                assert(bytes@.subrange(2, 10)[1] == bytes@[3]);
                assert(bytes@.subrange(2, 10)[2] == bytes@[4]);
                assert(bytes@.subrange(2, 10)[3] == bytes@[5]);
                assert(bytes@.subrange(2, 10)[4] == bytes@[6]);
                assert(bytes@.subrange(2, 10)[5] == bytes@[7]);
                assert(bytes@.subrange(2, 10)[6] == bytes@[8]);
                assert(bytes@.subrange(2, 10)[7] == bytes@[9]);
            }
            ((bytes[2] as u64) << 56u64) | ((bytes[3] as u64) << 48u64) | ((bytes[4] as u64)
                << 40u64) | ((bytes[5] as u64) << 32u64) | ((bytes[6] as u64) << 24u64) | ((
            bytes[7] as u64) << 16u64) | ((bytes[8] as u64) << 8u64) | (bytes[9] as u64)
        } else {
            short as u64
        };
        let masking_key = if second >= 128 {
            let key = [bytes[2 + ext], bytes[3 + ext], bytes[4 + ext], bytes[5 + ext]];
            let k = MaskingKey { key };
            assert(k@ =~= bytes@.subrange(2 + ext, 6 + ext));
            Some(k)
        } else {
            None
        };
        let extensions = [first / 64 % 2 == 1, first / 32 % 2 == 1, first / 16 % 2 == 1];
        let h = Header { is_final: first >= 128, extensions, kind, payload_len, masking_key };
        assert(h.extensions@ =~= seq![
            first / 64 % 2 == 1,
            first / 32 % 2 == 1,
            first / 16 % 2 == 1,
        ]);
        Ok((h, total))
    }

    /// Encodes the header: the 7-bit length field holds lengths up to 125, a
    /// 2-byte length follows for lengths up to 65535, an 8-byte one above.
    pub fn bytes(self) -> (r: HeaderBytes)
        ensures
            r.wf(),
            r@ == self.encoding(),
    {
        let mut bytes = [0u8; 14];
        let mut first: u8 = self.kind.opcode();
        if self.is_final {
            first = first + 128;
        }
        if self.extensions[0] {
            first = first + 64;
        }
        if self.extensions[1] {
            first = first + 32;
        }
        if self.extensions[2] {
            first = first + 16;
        }
        assert(first == self.first_byte());
        bytes[0] = first;
        let mut second: u8 = if self.payload_len > 65535 {
            127
        } else if self.payload_len > 125 {
            126
        } else {
            self.payload_len as u8
        };
        if self.masking_key.is_some() {
            second = second + 128;
        }
        assert(second == self.second_byte());
        bytes[1] = second;
        let len = self.write_length(&mut bytes);
        assert(bytes@.subrange(0, len as int) =~= seq![self.first_byte(), self.second_byte()]
            + self.length_bytes());
        let len = match self.masking_key {
            Some(key) => {
                let ghost before = bytes@;
                bytes[len] = key.key[0];
                bytes[len + 1] = key.key[1];
                bytes[len + 2] = key.key[2];
                bytes[len + 3] = key.key[3];
                assert(bytes@.subrange(0, len as int) =~= before.subrange(0, len as int));
                assert(bytes@.subrange(len as int, len + 4) =~= key@);
                assert(bytes@.subrange(0, len + 4) =~= bytes@.subrange(0, len as int)
                    + bytes@.subrange(len as int, len + 4));
                len + 4
            },
            None => len,
        };
        let r = HeaderBytes { bytes, len: len as u8 };
        assert(r@ =~= self.encoding());
        r
    }

    /// Writes the extended length, if any, after the two fixed bytes, and
    /// returns where it ends.
    fn write_length(&self, bytes: &mut [u8; 14]) -> (len: usize)
        ensures
            len == 2 + self.length_bytes().len(),
            final(bytes)@.subrange(0, 2) == old(bytes)@.subrange(0, 2),
            final(bytes)@.subrange(2, len as int) == self.length_bytes(),
    {
        let x = self.payload_len;
        if x > 65535 {
            bytes[2] = ((x >> 56u64) & 0xffu64) as u8;
            bytes[3] = ((x >> 48u64) & 0xffu64) as u8;
            bytes[4] = ((x >> 40u64) & 0xffu64) as u8;
            bytes[5] = ((x >> 32u64) & 0xffu64) as u8;
            bytes[6] = ((x >> 24u64) & 0xffu64) as u8;
            bytes[7] = ((x >> 16u64) & 0xffu64) as u8;
            bytes[8] = ((x >> 8u64) & 0xffu64) as u8;
            bytes[9] = (x & 0xffu64) as u8;
            assert((x & 0xffu64) == ((x >> 0u64) & 0xffu64)) by (bit_vector);
            assert(bytes@.subrange(2, 10) =~= self.length_bytes());
            assert(bytes@.subrange(0, 2) =~= old(bytes)@.subrange(0, 2));
            10
        } else if x > 125 {
            bytes[2] = (x >> 8u64) as u8;
            bytes[3] = (x & 0xffu64) as u8;
            assert(bytes@.subrange(2, 4) =~= self.length_bytes());
            assert(bytes@.subrange(0, 2) =~= old(bytes)@.subrange(0, 2));
            4
        } else {
            assert(bytes@.subrange(2, 2) =~= self.length_bytes());
            2
        }
    }
}

/// How many length bytes follow the two fixed bytes, by the 7-bit length field.
pub open spec fn ext_len(second: u8) -> nat {
    if second % 128 == 126 {
        2
    } else if second % 128 == 127 {
        8
    } else {
        0
    }
}

/// The full length of the header that starts with these two bytes.
pub open spec fn header_len(second: u8) -> nat {
    2 + ext_len(second) + if second >= 128 {
        4nat
    } else {
        0
    }
}

/// Why the bytes do not start with a header, if they do not. The checks on
/// the first two bytes come before the check that the rest is there.
pub open spec fn header_error(b: Seq<u8>) -> Option<Error> {
    if b.len() < 2 {
        Some(Error::PrematureFinish)
    } else {
        match kind_of_opcode(b[0] % 16) {
            None => Some(Error::ReservedOpcode),
            Some(kind) => if kind.spec_is_control() && b[1] % 128 >= 126 {
                Some(Error::InvalidLength)
            } else if kind.spec_is_control() && b[0] < 128 {
                Some(Error::InvalidDataFrame)
            } else if b.len() < header_len(b[1]) {
                Some(Error::PrematureFinish)
            } else {
                None
            },
        }
    }
}

/// `h` is the header that the bytes start with (given that they start with one).
pub open spec fn describes(b: Seq<u8>, h: Header) -> bool {
    let first = b[0];
    let second = b[1];
    let ext = ext_len(second) as int;
    &&& h.is_final == (first >= 128)
    &&& h.extensions@ == seq![first / 64 % 2 == 1, first / 32 % 2 == 1, first / 16 % 2 == 1]
    &&& kind_of_opcode(first % 16) == Some(h.kind)
    &&& h.payload_len == if ext == 2 {
        be16(b[2], b[3])
    } else if ext == 8 {
        be64(b.subrange(2, 10))
    } else {
        (second % 128) as u64
    }
    &&& match h.masking_key {
        Some(k) => second >= 128 && k@ == b.subrange(2 + ext, 6 + ext),
        None => second < 128,
    }
}

/// Two headers that the same bytes describe are the same header.
pub proof fn lemma_describes_unique(b: Seq<u8>, h1: Header, h2: Header)
    requires
        describes(b, h1),
        describes(b, h2),
    ensures
        h1 == h2,
{
    assert(h1.extensions@ =~= h2.extensions@);
    assert(h1.extensions == h2.extensions);
    match (h1.masking_key, h2.masking_key) {
        (Some(k1), Some(k2)) => {
            assert(k1.key@ =~= k2.key@);
            assert(k1.key == k2.key);
        },
        _ => {},
    }
}

proof fn lemma_first_byte(h: Header)
    ensures
        (h.first_byte() >= 128) == h.is_final,
        (h.first_byte() / 64 % 2 == 1) == h.extensions@[0],
        (h.first_byte() / 32 % 2 == 1) == h.extensions@[1],
        (h.first_byte() / 16 % 2 == 1) == h.extensions@[2],
        h.first_byte() % 16 == h.kind.spec_opcode(),
{
    let op = h.kind.spec_opcode();
    assert(op < 16);
}

proof fn lemma_be64_round_trip(x: u64)
    ensures
        be64(Seq::new(8, |i: int| be_byte(x, i as u64))) == x,
{
    let s = Seq::new(8, |i: int| be_byte(x, i as u64));
    assert(s[0] == ((x >> 56u64) & 0xffu64) as u8);
    assert(s[1] == ((x >> 48u64) & 0xffu64) as u8);
    assert(s[2] == ((x >> 40u64) & 0xffu64) as u8);
    assert(s[3] == ((x >> 32u64) & 0xffu64) as u8);
    assert(s[4] == ((x >> 24u64) & 0xffu64) as u8);
    assert(s[5] == ((x >> 16u64) & 0xffu64) as u8);
    assert(s[6] == ((x >> 8u64) & 0xffu64) as u8);
    assert(s[7] == ((x >> 0u64) & 0xffu64) as u8);
    assert(((((x >> 56u64) & 0xffu64) as u8 as u64) << 56u64) | ((((x >> 48u64) & 0xffu64) as u8
        as u64) << 48u64) | ((((x >> 40u64) & 0xffu64) as u8 as u64) << 40u64) | ((((x >> 32u64)
        & 0xffu64) as u8 as u64) << 32u64) | ((((x >> 24u64) & 0xffu64) as u8 as u64) << 24u64)
        | ((((x >> 16u64) & 0xffu64) as u8 as u64) << 16u64) | ((((x >> 8u64) & 0xffu64) as u8
        as u64) << 8u64) | (((x >> 0u64) & 0xffu64) as u8 as u64) == x) by (bit_vector);
}

proof fn lemma_be16_round_trip(x: u64)
    requires
        x <= 65535,
    ensures
        be16((x >> 8u64) as u8, (x & 0xffu64) as u8) == x,
{
    assert(((((x >> 8u64) as u8) as u64) << 8u64) | (((x & 0xffu64) as u8) as u64) == x)
        by (bit_vector)
        requires
            x <= 65535,
    ;
}

/// Decoding the encoding of a valid header gives that header back, and
/// consumes exactly the encoding, whatever bytes follow it.
pub proof fn lemma_header_round_trip(h: Header, rest: Seq<u8>)
    requires
        h.valid(),
    ensures
        header_error(h.encoding() + rest) is None,
        header_len((h.encoding() + rest)[1]) == h.encoding().len(),
        forall|h2: Header| describes(h.encoding() + rest, h2) <==> h2 == h,
{
    let b = h.encoding() + rest;
    lemma_first_byte(h);
    assert(b[0] == h.first_byte());
    assert(b[1] == h.second_byte());
    assert(h.second_byte() % 128 == h.short_len());
    assert((h.second_byte() >= 128) == (h.masking_key is Some));
    let ext = ext_len(b[1]) as int;
    assert(h.length_bytes().len() == ext);
    if h.payload_len > 65535 {
        lemma_be64_round_trip(h.payload_len);
        assert(b.subrange(2, 10) =~= h.length_bytes());
    } else if h.payload_len > 125 {
        lemma_be16_round_trip(h.payload_len);
    }
    match h.masking_key {
        Some(k) => {
            assert(b.subrange(2 + ext, 6 + ext) =~= k@);
        },
        None => {},
    }
    assert(h.extensions@ =~= seq![b[0] / 64 % 2 == 1, b[0] / 32 % 2 == 1, b[0] / 16 % 2 == 1]);
    assert(describes(b, h));
    assert forall|h2: Header| describes(b, h2) <==> h2 == h by {
        if describes(b, h2) {
            lemma_describes_unique(b, h, h2);
        }
    }
}

/// A control frame that is fragmented or announces 126 bytes or more is
/// refused on its first two bytes alone, before any payload is read.
pub proof fn lemma_control_frame_refused_early(b: Seq<u8>)
    requires
        b.len() >= 2,
        kind_of_opcode(b[0] % 16) matches Some(k) && k.spec_is_control(),
        b[1] % 128 >= 126 || b[0] < 128,
    ensures
        header_error(b) == header_error(b.subrange(0, 2)),
        header_error(b) == Some(Error::InvalidLength) || header_error(b) == Some(
            Error::InvalidDataFrame,
        ),
{
    let s = b.subrange(0, 2);
    assert(s[0] == b[0] && s[1] == b[1]);
}

} // verus!
