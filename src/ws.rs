//! The WebSocket layer: frame headers, messages and handshake keys.
pub mod header;
pub mod message;

use vstd::prelude::*;
use vstd::string::StringSliceAdditionalSpecFns;
use vstd::utf8::encode_utf8;
use crate::text::{trim, trim_of};

verus! {

/// Relies on `rand::RngCore::try_fill_bytes` for `rand::rngs::OsRng`: it
/// fills the buffer from the operating system's randomness source, or fails;
/// the buffer keeps its length.
#[verifier::external_body]
pub(crate) fn fill_random(buf: &mut Vec<u8>) -> (ok: bool)
    ensures
        final(buf)@.len() == old(buf)@.len(),
{
    rand::RngCore::try_fill_bytes(&mut rand::rngs::OsRng, buf.as_mut_slice()).is_ok()
}

/// The SHA-1 digest of the bytes.
pub uninterp spec fn sha1_of(data: Seq<u8>) -> Seq<u8>;

/// The padded standard base64 encoding of the bytes, as ASCII bytes.
pub uninterp spec fn base64_of(data: Seq<u8>) -> Seq<u8>;

/// Relies on `ring::digest::digest` with `SHA1_FOR_LEGACY_USE_ONLY`: the
/// SHA-1 digest of the data, whose length is `SHA1_OUTPUT_LEN`, 20.
#[verifier::external_body]
fn sha1(data: &[u8]) -> (r: Vec<u8>)
    requires
        data@.len() <= 1024,
    ensures
        r@ == sha1_of(data@),
        r@.len() == 20,
{
    ring::digest::digest(&ring::digest::SHA1_FOR_LEGACY_USE_ONLY, data).as_ref().to_vec()
}

/// Relies on `base64::encode_config` with `base64::STANDARD`: padded
/// standard base64, four characters for each group of three bytes begun.
#[verifier::external_body]
fn base64_standard(data: &[u8]) -> (r: Vec<u8>)
    requires
        data@.len() <= 1024,
    ensures
        r@ == base64_of(data@),
        r@.len() == 4 * ((data@.len() + 2) / 3),
{
    base64::encode_config(data, base64::STANDARD).into_bytes()
}

/// The GUID that the opening handshake appends to the request key.
pub const MAGIC_GUID: &'static str = "258EAFA5-E914-47DA-95CA-C5AB0DC85B11";

/// The accept key that a server owes for a request key.
pub open spec fn response_key_of(request: Seq<u8>) -> Seq<u8> {
    base64_of(sha1_of(request + MAGIC_GUID.spec_bytes()))
}

/// `response` is the accept key owed for `request`.
pub open spec fn accepts(request: Seq<u8>, response: Seq<u8>) -> bool {
    response == response_key_of(request)
}

/// The handshake nonce: 16 random bytes in base64, 24 characters at most.
/// Only the used prefix counts; the rest of the buffer is zero, so hashing
/// the whole buffer agrees with equality.
#[derive(Clone, Copy, Debug, Hash)]
pub struct RequestKey {
    bytes: [u8; 24],
    size: u8,
}

/// The accept key of the handshake: a SHA-1 digest in base64, 28 characters
/// at most. Only the used prefix counts; the rest of the buffer is zero, so
/// hashing the whole buffer agrees with equality.
#[derive(Clone, Copy, Debug, Hash)]
pub struct ResponseKey {
    bytes: [u8; 28],
    size: u8,
}

impl View for RequestKey {
    type V = Seq<u8>;

    closed spec fn view(&self) -> Seq<u8> {
        self.bytes@.subrange(0, self.size as int)
    }
}

impl View for ResponseKey {
    type V = Seq<u8>;

    closed spec fn view(&self) -> Seq<u8> {
        self.bytes@.subrange(0, self.size as int)
    }
}

impl RequestKey {
    #[verifier::type_invariant]
    closed spec fn inv(&self) -> bool {
        &&& self.size <= 24
        &&& forall|i: int| self.size <= i < 24 ==> self.bytes@[i] == 0
    }

    /// A key of at most 24 bytes, copied into a zeroed buffer.
    fn from_prefix(v: &[u8]) -> (r: RequestKey)
        requires
            v@.len() <= 24,
        ensures
            r@ == v@,
    {
        let mut bytes = [0u8; 24];
        let mut i: usize = 0;
        while i < v.len()
            invariant
                v@.len() <= 24,
                i <= v@.len(),
                forall|j: int| 0 <= j < i ==> bytes@[j] == v@[j],
                forall|j: int| v@.len() <= j < 24 ==> bytes@[j] == 0,
            decreases v@.len() - i,
        {
            bytes[i] = v[i];
            i = i + 1;
        }
        let r = RequestKey { bytes, size: v.len() as u8 };
        assert(r@ =~= v@);
        r
    }

    /// The key for 16 nonce bytes: their base64 encoding.
    pub fn from_nonce(nonce: [u8; 16]) -> (r: RequestKey)
        ensures
            r@ == base64_of(nonce@),
            r@.len() == 24,
    {
        let encoded = base64_standard(nonce.as_slice());
        RequestKey::from_prefix(encoded.as_slice())
    }

    /// A key from 16 bytes of the operating system's randomness source;
    /// `None` when that source fails.
    pub fn generate() -> (r: Option<RequestKey>)
        ensures
            r matches Some(k) ==> exists|nonce: Seq<u8>| nonce.len() == 16 && k@ == base64_of(nonce),
    {
        let mut v: Vec<u8> = vec![0u8; 16];
        if !fill_random(&mut v) {
            return None;
        }
        let mut nonce = [0u8; 16];
        let mut i: usize = 0;
        while i < 16
            invariant
                v@.len() == 16,
                i <= 16,
                forall|j: int| 0 <= j < i ==> nonce@[j] == v@[j],
            decreases 16 - i,
        {
            nonce[i] = v[i];
            i = i + 1;
        }
        Some(RequestKey::from_nonce(nonce))
    }

    /// The encoded key.
    pub fn as_bytes(&self) -> (r: &[u8])
        ensures
            r@ == self@,
    {
        proof {
            use_type_invariant(self);
        }
        vstd::slice::slice_subrange(self.bytes.as_slice(), 0, self.size as usize)
    }

    /// Reads a key from text: surrounding whitespace is dropped, and more
    /// than 24 bytes are refused.
    pub fn parse(s: &str) -> (r: Option<RequestKey>)
        ensures
            r is Some <==> encode_utf8(trim_of(s@)).len() <= 24,
            r matches Some(k) ==> k@ == encode_utf8(trim_of(s@)),
    {
        let t = trim(s).as_bytes();
        if t.len() > 24 {
            None
        } else {
            Some(RequestKey::from_prefix(t))
        }
    }

    /// Whether `response` is the accept key owed for this key.
    pub fn verify(&self, response: ResponseKey) -> (r: bool)
        ensures
            r == accepts(self@, response@),
    {
        let expected = ResponseKey::from_request(self);
        expected == response
    }
}

impl ResponseKey {
    #[verifier::type_invariant]
    closed spec fn inv(&self) -> bool {
        &&& self.size <= 28
        &&& forall|i: int| self.size <= i < 28 ==> self.bytes@[i] == 0
    }

    fn from_prefix(v: &[u8]) -> (r: ResponseKey)
        requires
            v@.len() <= 28,
        ensures
            r@ == v@,
    {
        let mut bytes = [0u8; 28];
        let mut i: usize = 0;
        while i < v.len()
            invariant
                v@.len() <= 28,
                i <= v@.len(),
                forall|j: int| 0 <= j < i ==> bytes@[j] == v@[j],
                forall|j: int| v@.len() <= j < 28 ==> bytes@[j] == 0,
            decreases v@.len() - i,
        {
            bytes[i] = v[i];
            i = i + 1;
        }
        let r = ResponseKey { bytes, size: v.len() as u8 };
        assert(r@ =~= v@);
        r
    }

    /// The accept key owed for `request`: SHA-1 of the request key followed
    /// by the magic GUID, in base64. The same request key always gives the
    /// same accept key.
    pub fn from_request(request: &RequestKey) -> (r: ResponseKey)
        ensures
            r@ == response_key_of(request@),
            r@.len() == 28,
    {
        let mut concat = vstd::slice::slice_to_vec(request.as_bytes());
        let mut guid = vstd::slice::slice_to_vec(MAGIC_GUID.as_bytes());
        proof {
            use_type_invariant(request);
            reveal_strlit("258EAFA5-E914-47DA-95CA-C5AB0DC85B11");
            vstd::string::is_ascii_spec_bytes(MAGIC_GUID);
        }
        assert(guid@.len() == 36);
        concat.append(&mut guid);
        let digest = sha1(concat.as_slice());
        let encoded = base64_standard(digest.as_slice());
        ResponseKey::from_prefix(encoded.as_slice())
    }

    /// The encoded key.
    pub fn as_bytes(&self) -> (r: &[u8])
        ensures
            r@ == self@,
    {
        proof {
            use_type_invariant(self);
        }
        vstd::slice::slice_subrange(self.bytes.as_slice(), 0, self.size as usize)
    }

    /// Reads a key from text: surrounding whitespace is dropped, and more
    /// than 28 bytes are refused.
    pub fn parse(s: &str) -> (r: Option<ResponseKey>)
        ensures
            r is Some <==> encode_utf8(trim_of(s@)).len() <= 28,
            r matches Some(k) ==> k@ == encode_utf8(trim_of(s@)),
    {
        let t = trim(s).as_bytes();
        if t.len() > 28 {
            None
        } else {
            Some(ResponseKey::from_prefix(t))
        }
    }
}

impl PartialEq for RequestKey {
    fn eq(&self, other: &RequestKey) -> (r: bool) {
        crate::text::bytes_equal(self.as_bytes(), other.as_bytes())
    }
}

impl vstd::std_specs::cmp::PartialEqSpecImpl for RequestKey {
    open spec fn obeys_eq_spec() -> bool {
        true
    }

    open spec fn eq_spec(&self, other: &RequestKey) -> bool {
        self@ == other@
    }
}

impl Eq for RequestKey {

}

impl PartialEq for ResponseKey {
    fn eq(&self, other: &ResponseKey) -> (r: bool) {
        crate::text::bytes_equal(self.as_bytes(), other.as_bytes())
    }
}

impl vstd::std_specs::cmp::PartialEqSpecImpl for ResponseKey {
    open spec fn obeys_eq_spec() -> bool {
        true
    }

    open spec fn eq_spec(&self, other: &ResponseKey) -> bool {
        self@ == other@
    }
}

impl Eq for ResponseKey {

}

/// The accept key derived from a request key is accepted for it.
pub proof fn lemma_derived_key_accepted(request: Seq<u8>)
    ensures
        accepts(request, response_key_of(request)),
{
}

/// A candidate that differs from the owed accept key in any one byte is
/// refused.
pub proof fn lemma_altered_key_refused(request: Seq<u8>, i: int, c: u8)
    requires
        0 <= i < response_key_of(request).len(),
        c != response_key_of(request)[i],
    ensures
        !accepts(request, response_key_of(request).update(i, c)),
{
    assert(response_key_of(request).update(i, c)[i] != response_key_of(request)[i]);
}

} // verus!
