//! The decisions of the transport shim: which port an encrypted connection
//! goes to, and the bytes that the upgrade read ahead of the frame stream.
use vstd::prelude::*;

verus! {

/// The standard port of encrypted connections.
pub const TLS_PORT: u16 = 443;

/// The port to connect to: the one the address names, or the standard
/// encrypted port whatever its scheme says.
pub fn destination_port(port: Option<u16>) -> (r: u16)
    ensures
        r == match port {
            Some(p) => p,
            None => TLS_PORT,
        },
{
    match port {
        Some(p) => p,
        None => TLS_PORT,
    }
}

/// Bytes that the HTTP upgrade read past the end of its response. The frame
/// reader takes them before it reads from the stream again.
pub struct Prebuffer {
    bytes: Vec<u8>,
    pos: usize,
}

impl View for Prebuffer {
    type V = Seq<u8>;

    /// The bytes not yet taken.
    closed spec fn view(&self) -> Seq<u8> {
        self.bytes@.subrange(self.pos as int, self.bytes@.len() as int)
    }
}

impl Prebuffer {
    #[verifier::type_invariant]
    closed spec fn inv(&self) -> bool {
        self.pos <= self.bytes@.len()
    }

    pub fn new(bytes: Vec<u8>) -> (r: Prebuffer)
        ensures
            r@ == bytes@,
    {
        let r = Prebuffer { bytes, pos: 0 };
        assert(r@ =~= r.bytes@);
        r
    }

    pub fn is_empty(&self) -> (r: bool)
        ensures
            r == (self@.len() == 0),
    {
        proof {
            use_type_invariant(self);
        }
        self.pos == self.bytes.len()
    }

    /// Takes up to `n` bytes from the front.
    pub fn take(&mut self, n: usize) -> (r: Vec<u8>)
        ensures
            r@.len() == if n < old(self)@.len() {
                n as int
            } else {
                old(self)@.len() as int
            },
            old(self)@ == r@ + final(self)@,
    {
        proof {
            use_type_invariant(&*self);
        }
        let avail = self.bytes.len() - self.pos;
        let k = if n < avail {
            n
        } else {
            avail
        };
        let out = vstd::slice::slice_to_vec(
            vstd::slice::slice_subrange(self.bytes.as_slice(), self.pos, self.pos + k),
        );
        let ghost before = self@;
        self.pos = self.pos + k;
        assert(before =~= out@ + self@);
        out
    }
}

} // verus!
