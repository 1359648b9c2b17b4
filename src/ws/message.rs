//! Logical messages: reassembly from frames, validation, and encoding.
use vstd::prelude::*;
use vstd::utf8::{decode_utf8, valid_utf8};
use vstd::string::StringSliceAdditionalSpecFns;
use crate::text::utf8_string;
use super::header::{
    describes, header_error, header_len, masked, Error, Header, Kind, MaskingKey,
};

verus! {

/// Which side of the connection writes: a client masks what it sends.
#[derive(Clone, Copy, Debug, PartialEq, Eq, Structural)]
pub enum Context {
    Client,
    Server,
}

/// Why a message of `kind` with this payload cannot be built, if it cannot.
pub open spec fn message_error(kind: Kind, payload: Seq<u8>) -> Option<Error> {
    match kind {
        Kind::Continuation => Some(Error::InvalidDataFrame),
        Kind::Text => if valid_utf8(payload) {
            None
        } else {
            Some(Error::NonUtf8Text)
        },
        Kind::Close => if payload.len() > 2 && !valid_utf8(payload.subrange(2, payload.len() as int)) {
            Some(Error::NonUtf8Text)
        } else {
            None
        },
        _ => None,
    }
}

/// The close code held in the first two bytes of a close payload.
pub open spec fn close_code(b0: u8, b1: u8) -> u16 {
    ((b0 as u16) << 8u16) | (b1 as u16)
}

/// A complete message with its payload, validated once when it was built.
#[derive(Debug)]
pub struct Owned {
    kind: Kind,
    data: Vec<u8>,
    text: String,
}

impl Owned {
    pub closed spec fn kind(&self) -> Kind {
        self.kind
    }

    pub closed spec fn payload(&self) -> Seq<u8> {
        self.data@
    }

    /// The kind is not `Continuation`, the payload passed validation, and the
    /// text held beside it is its text (or the reason of a close).
    pub closed spec fn wf(&self) -> bool {
        &&& message_error(self.kind, self.data@) is None
        &&& self.kind == Kind::Text ==> self.text@ == decode_utf8(self.data@)
        &&& self.kind == Kind::Close ==> if self.data@.len() > 2 {
            self.text@ == decode_utf8(self.data@.subrange(2, self.data@.len() as int))
        } else {
            self.text@.len() == 0
        }
    }

    /// Builds a message of `kind` from its payload: text must be UTF-8, so
    /// must the reason of a close, and `Continuation` is no message kind.
    pub fn new(kind: Kind, data: Vec<u8>) -> (r: Result<Owned, Error>)
        ensures
            match r {
                Ok(o) => message_error(kind, data@) is None && o.wf() && o.kind() == kind
                    && o.payload() == data@,
                Err(e) => message_error(kind, data@) == Some(e),
            },
    {
        match kind {
            Kind::Continuation => Err(Error::InvalidDataFrame),
            Kind::Text => {
                let copy = vstd::slice::slice_to_vec(data.as_slice());
                match utf8_string(copy) {
                    Some(text) => Ok(Owned { kind, data, text }),
                    None => Err(Error::NonUtf8Text),
                }
            },
            Kind::Close => {
                if data.len() > 2 {
                    let reason = vstd::slice::slice_to_vec(
                        vstd::slice::slice_subrange(data.as_slice(), 2, data.len()),
                    );
                    match utf8_string(reason) {
                        Some(text) => Ok(Owned { kind, data, text }),
                        None => Err(Error::NonUtf8Text),
                    }
                } else {
                    Ok(Owned { kind, data, text: String::new() })
                }
            },
            _ => Ok(Owned { kind, data, text: String::new() }),
        }
    }

    pub fn buf(&self) -> (r: &[u8])
        ensures
            r@ == self.payload(),
    {
        self.data.as_slice()
    }

    /// The message as its caller sees it.
    pub fn message(&self) -> (r: Message<'_>)
        requires
            self.wf(),
        ensures
            shows(r, self.kind(), self.payload()),
    {
        let r = match self.kind {
            Kind::Text => Message::Text(self.text.as_str()),
            Kind::Binary => Message::Binary(self.data.as_slice()),
            Kind::Close => {
                if self.data.len() < 2 {
                    Message::Close(None)
                } else {
                    let code = ((self.data[0] as u16) << 8u16) | (self.data[1] as u16);
                    if self.data.len() == 2 {
                        assert(self.data@.subrange(2, 2) =~= Seq::<u8>::empty());
                        assert(decode_utf8(Seq::<u8>::empty()) =~= Seq::<char>::empty());
                    }
                    assert(code == close_code(self.data@[0], self.data@[1]));
                    assert(self.text@ == decode_utf8(self.data@.subrange(2, self.data@.len() as int)));
                    Message::Close(Some((code, self.text.as_str())))
                }
            },
            Kind::Ping => Message::Ping(self.data.as_slice()),
            Kind::Pong => Message::Pong(self.data.as_slice()),
            // `wf` rules this kind out
            Kind::Continuation => Message::Binary(self.data.as_slice()),
        };
        r
    }
}

/// A message as its caller sees it: text is a string, a close carries its
/// code and reason when it has a code.
#[non_exhaustive]
#[derive(Clone, Copy, Debug, PartialEq, Eq)]
pub enum Message<'a> {
    Text(&'a str),
    Binary(&'a [u8]),
    Close(Option<(u16, &'a str)>),
    Ping(&'a [u8]),
    Pong(&'a [u8]),
}

/// `m` is how a message of `kind` with this payload is shown.
pub open spec fn shows(m: Message, kind: Kind, payload: Seq<u8>) -> bool {
    match m {
        Message::Text(s) => kind == Kind::Text && s@ == decode_utf8(payload),
        Message::Binary(b) => kind == Kind::Binary && b@ == payload,
        Message::Close(None) => kind == Kind::Close && payload.len() < 2,
        Message::Close(Some((code, reason))) => kind == Kind::Close && payload.len() >= 2 && code
            == close_code(payload[0], payload[1]) && reason@ == decode_utf8(
            payload.subrange(2, payload.len() as int),
        ),
        Message::Ping(b) => kind == Kind::Ping && b@ == payload,
        Message::Pong(b) => kind == Kind::Pong && b@ == payload,
    }
}

/// The payload of a frame with its mask, if any, taken off.
pub open spec fn unmasked(h: Header, p: Seq<u8>) -> Seq<u8> {
    match h.masking_key {
        Some(k) => masked(k@, p),
        None => p,
    }
}

/// A message begun and not yet finished: its kind and the payload so far.
pub type Pending = Option<(Kind, Seq<u8>)>;

/// What one frame does to the message being assembled: an error, or the
/// message still pending after it and the message it completes, if any.
/// A message starts with a text, binary or control frame; a non-final text
/// or binary frame is continued by `Continuation` frames up to a final one;
/// control frames are never fragmented.
pub open spec fn frame_step(pending: Pending, h: Header, p: Seq<u8>) -> Result<
    (Pending, Pending),
    Error,
> {
    let data = unmasked(h, p);
    if p.len() != h.payload_len {
        Err(Error::InvalidDataFrame)
    } else {
        match pending {
            None => if h.kind == Kind::Continuation || (h.kind.spec_is_control() && !h.is_final) {
                Err(Error::InvalidDataFrame)
            } else if h.is_final {
                Ok((None, Some((h.kind, data))))
            } else {
                Ok((Some((h.kind, data)), None))
            },
            Some((k, acc)) => if h.kind != Kind::Continuation {
                Err(Error::InvalidDataFrame)
            } else if h.is_final {
                Ok((None, Some((k, acc + data))))
            } else {
                Ok((Some((k, acc + data)), None))
            },
        }
    }
}

/// Collects frames into messages.
pub struct Reassembler {
    kind: Option<Kind>,
    buffer: Vec<u8>,
}

impl Reassembler {
    pub closed spec fn pending(&self) -> Pending {
        match self.kind {
            Some(k) => Some((k, self.buffer@)),
            None => None,
        }
    }

    pub fn new() -> (r: Reassembler)
        ensures
            r.pending() is None,
    {
        Reassembler { kind: None, buffer: Vec::new() }
    }

    /// Takes the next frame, whose payload has been read in full. Returns the
    /// message it completes, validated, if it completes one. After an error
    /// nothing is pending.
    pub fn push(&mut self, header: Header, payload: Vec<u8>) -> (r: Result<Option<Owned>, Error>)
        ensures
            match frame_step(old(self).pending(), header, payload@) {
                Err(e) => r matches Err(e2) && e2 == e && final(self).pending() is None,
                Ok((next, None)) => r matches Ok(None) && final(self).pending() == next,
                Ok((_, Some((k, d)))) => final(self).pending() is None && match message_error(
                    k,
                    d,
                ) {
                    Some(e) => r matches Err(e2) && e2 == e,
                    None => r matches Ok(Some(o)) && o.wf() && o.kind() == k && o.payload() == d,
                },
            },
    {
        let ghost old_pending = self.pending();
        let mut data = payload;
        if data.len() as u64 != header.payload_len {
            self.kind = None;
            self.buffer = Vec::new();
            return Err(Error::InvalidDataFrame);
        }
        if let Some(key) = header.masking_key {
            key.apply(&mut data);
        }
        assert(data@ == unmasked(header, payload@));
        match self.kind {
            None => {
                if header.kind == Kind::Continuation || (header.kind.is_control()
                    && !header.is_final) {
                    return Err(Error::InvalidDataFrame);
                }
                if header.is_final {
                    match Owned::new(header.kind, data) {
                        Ok(o) => Ok(Some(o)),
                        Err(e) => Err(e),
                    }
                } else {
                    self.kind = Some(header.kind);
                    self.buffer = data;
                    Ok(None)
                }
            },
            Some(k) => {
                if header.kind != Kind::Continuation {
                    self.kind = None;
                    self.buffer = Vec::new();
                    return Err(Error::InvalidDataFrame);
                }
                self.buffer.append(&mut data);
                if header.is_final {
                    let mut whole = Vec::new();
                    std::mem::swap(&mut whole, &mut self.buffer);
                    self.kind = None;
                    match Owned::new(k, whole) {
                        Ok(o) => Ok(Some(o)),
                        Err(e) => Err(e),
                    }
                } else {
                    Ok(None)
                }
            },
        }
    }
}

/// Feeds frames in order until one completes a message or fails.
pub open spec fn assemble(pending: Pending, frames: Seq<(Header, Seq<u8>)>) -> Result<
    (Pending, Pending),
    Error,
>
    decreases frames.len(),
{
    if frames.len() == 0 {
        Ok((pending, None))
    } else {
        match frame_step(pending, frames[0].0, frames[0].1) {
            Err(e) => Err(e),
            Ok((next, None)) => assemble(next, frames.drop_first()),
            Ok((next, Some(m))) => Ok((next, Some(m))),
        }
    }
}

/// The unmasked payloads of the frames, one after the other.
pub open spec fn joined(frames: Seq<(Header, Seq<u8>)>) -> Seq<u8>
    decreases frames.len(),
{
    if frames.len() == 0 {
        seq![]
    } else {
        unmasked(frames[0].0, frames[0].1) + joined(frames.drop_first())
    }
}

/// Each frame's payload has the length its header announces.
pub open spec fn lengths_match(frames: Seq<(Header, Seq<u8>)>) -> bool {
    forall|i: int| 0 <= i < frames.len() ==> #[trigger] frames[i].1.len() == frames[i].0.payload_len
}

/// `Continuation` frames, all but the last non-final, the last final.
pub open spec fn continuation_run(frames: Seq<(Header, Seq<u8>)>) -> bool {
    &&& frames.len() >= 1
    &&& forall|i: int| 0 <= i < frames.len() ==> (#[trigger] frames[i]).0.kind == Kind::Continuation
    &&& forall|i: int| 0 <= i < frames.len() ==> ((#[trigger] frames[i]).0.is_final <==> i
        == frames.len() - 1)
}

proof fn lemma_continuation_run(k: Kind, acc: Seq<u8>, frames: Seq<(Header, Seq<u8>)>)
    requires
        continuation_run(frames),
        lengths_match(frames),
    ensures
        assemble(Some((k, acc)), frames) == Ok::<(Pending, Pending), Error>(
            (None, Some((k, acc + joined(frames)))),
        ),
    decreases frames.len(),
{
    let f = frames[0];
    assert(f.1.len() == f.0.payload_len);
    let data = unmasked(f.0, f.1);
    if frames.len() == 1 {
        assert(frames.drop_first() =~= Seq::<(Header, Seq<u8>)>::empty());
        assert(joined(frames.drop_first()) =~= Seq::<u8>::empty());
        assert(joined(frames) =~= data);
    } else {
        let rest = frames.drop_first();
        assert forall|i: int| 0 <= i < rest.len() implies (#[trigger] rest[i]).1.len()
            == rest[i].0.payload_len by {
            assert(rest[i] == frames[i + 1]);
        }
        assert forall|i: int| 0 <= i < rest.len() implies (#[trigger] rest[i]).0.kind
            == Kind::Continuation && (rest[i].0.is_final <==> i == rest.len() - 1) by {
            assert(rest[i] == frames[i + 1]);
        }
        lemma_continuation_run(k, acc + data, rest);
        assert(acc + data + joined(rest) =~= acc + joined(frames));
    }
}

/// A non-final binary frame followed by a run of continuation frames, the last
/// one final, assembles into one binary message whose payload is the frames'
/// payloads, unmasked, in order.
pub proof fn lemma_fragments_join(frames: Seq<(Header, Seq<u8>)>)
    requires
        frames.len() >= 2,
        frames[0].0.kind == Kind::Binary,
        !frames[0].0.is_final,
        continuation_run(frames.drop_first()),
        lengths_match(frames),
    ensures
        assemble(None, frames) == Ok::<(Pending, Pending), Error>(
            (None, Some((Kind::Binary, joined(frames)))),
        ),
{
    let rest = frames.drop_first();
    assert(frames[0].1.len() == frames[0].0.payload_len);
    assert forall|i: int| 0 <= i < rest.len() implies (#[trigger] rest[i]).1.len()
        == rest[i].0.payload_len by {
        assert(rest[i] == frames[i + 1]);
    }
    lemma_continuation_run(Kind::Binary, unmasked(frames[0].0, frames[0].1), rest);
}

/// A message of kind text that exists holds valid UTF-8: text that is not is
/// refused when the message is built, and never reaches a caller.
pub proof fn lemma_text_is_utf8(o: &Owned)
    requires
        o.wf(),
    ensures
        o.kind() == Kind::Text ==> valid_utf8(o.payload()),
        o.kind() != Kind::Continuation,
{
}

/// Reads frames from the start of `b`, with `pending` begun before them,
/// until one completes a message: the message and how many bytes it took.
pub open spec fn read_frames(b: Seq<u8>, pending: Pending) -> Result<((Kind, Seq<u8>), nat), Error>
    decreases b.len(),
{
    match header_error(b) {
        Some(e) => Err(e),
        None => {
            let h = choose|h: Header| describes(b, h);
            let n = header_len(b[1]);
            if b.len() - n < h.payload_len {
                Err(Error::PrematureFinish)
            } else {
                let end = (n + h.payload_len) as nat;
                match frame_step(pending, h, b.subrange(n as int, end as int)) {
                    Err(e) => Err(e),
                    Ok((_, Some(m))) => Ok((m, end)),
                    Ok((next, None)) => match read_frames(b.subrange(end as int, b.len() as int), next) {
                        Ok((m, used)) => Ok((m, end + used)),
                        Err(e) => Err(e),
                    },
                }
            }
        },
    }
}

/// The message at the start of `b`, validated, and how many bytes it took.
pub open spec fn read_message(b: Seq<u8>) -> Result<((Kind, Seq<u8>), nat), Error> {
    match read_frames(b, None) {
        Ok(((k, d), used)) => match message_error(k, d) {
            Some(e) => Err(e),
            None => Ok(((k, d), used)),
        },
        Err(e) => Err(e),
    }
}

pub open spec fn shifted(r: Result<((Kind, Seq<u8>), nat), Error>, by: nat) -> Result<
    ((Kind, Seq<u8>), nat),
    Error,
> {
    match r {
        Ok((m, used)) => Ok((m, used + by)),
        Err(e) => Err(e),
    }
}

impl Owned {
    /// Reads one message from the start of `bytes`, frame by frame, and
    /// returns it with the number of bytes it took.
    pub fn read(bytes: &[u8]) -> (r: Result<(Owned, usize), Error>)
        ensures
            match r {
                Ok((o, n)) => o.wf() && read_message(bytes@) == Ok::<_, Error>(
                    ((o.kind(), o.payload()), n as nat),
                ),
                Err(e) => read_message(bytes@) == Err::<((Kind, Seq<u8>), nat), Error>(e),
            },
    {
        let mut frames = Reassembler::new();
        let mut pos: usize = 0;
        assert(bytes@.subrange(0, bytes@.len() as int) =~= bytes@);
        loop
            invariant
                pos <= bytes@.len(),
                read_frames(bytes@, None) == shifted(
                    read_frames(bytes@.subrange(pos as int, bytes@.len() as int), frames.pending()),
                    pos as nat,
                ),
            decreases bytes@.len() - pos,
        {
            let rest = vstd::slice::slice_subrange(bytes, pos, bytes.len());
            let ghost pending = frames.pending();
            let (h, n) = match Header::read(rest) {
                Ok(x) => x,
                Err(e) => return Err(e),
            };
            proof {
                assert(describes(rest@, h));
                let c = choose|c: Header| describes(rest@, c);
                super::header::lemma_describes_unique(rest@, c, h);
            }
            if ((rest.len() - n) as u64) < h.payload_len {
                return Err(Error::PrematureFinish);
            }
            let end = n + h.payload_len as usize;
            let payload = vstd::slice::slice_to_vec(vstd::slice::slice_subrange(rest, n, end));
            proof {
                assert(rest@.subrange(end as int, rest@.len() as int) =~= bytes@.subrange(
                    pos + end,
                    bytes@.len() as int,
                ));
            }
            match frames.push(h, payload) {
                Err(e) => return Err(e),
                Ok(Some(o)) => return Ok((o, pos + end)),
                Ok(None) => {
                    pos = pos + end;
                },
            }
        }
    }
}

/// The kind of frame that carries a message.
pub open spec fn kind_of(m: Message) -> Kind {
    match m {
        Message::Text(_) => Kind::Text,
        Message::Binary(_) => Kind::Binary,
        Message::Close(_) => Kind::Close,
        Message::Ping(_) => Kind::Ping,
        Message::Pong(_) => Kind::Pong,
    }
}

/// The payload bytes of a message: a close with a code carries the code in
/// two big-endian bytes before its reason.
pub open spec fn payload_of(m: Message) -> Seq<u8> {
    match m {
        Message::Text(s) => s.spec_bytes(),
        Message::Binary(b) => b@,
        Message::Close(Some((c, s))) => seq![(c >> 8u16) as u8, (c & 0xffu16) as u8]
            + s.spec_bytes(),
        Message::Close(None) => seq![],
        Message::Ping(b) => b@,
        Message::Pong(b) => b@,
    }
}

/// The frame that carries a message: one final frame, masked with `mask` if
/// there is one. A message with an empty payload is not sent at all.
pub open spec fn frame_of(m: Message, mask: Option<MaskingKey>) -> Seq<u8> {
    let p = payload_of(m);
    if p.len() == 0 {
        seq![]
    } else {
        let h = Header {
            is_final: true,
            extensions: [false, false, false],
            kind: kind_of(m),
            payload_len: p.len() as u64,
            masking_key: mask,
        };
        h.encoding() + unmasked(h, p)
    }
}

impl<'a> Message<'a> {
    /// The bytes of the single frame that carries this message.
    pub fn encode(&self, mask: Option<MaskingKey>) -> (r: Vec<u8>)
        requires
            payload_of(*self).len() <= usize::MAX,
        ensures
            r@ == frame_of(*self, mask),
    {
        let mut data: Vec<u8> = match *self {
            Message::Text(s) => vstd::slice::slice_to_vec(s.as_bytes()),
            Message::Binary(b) => vstd::slice::slice_to_vec(b),
            Message::Close(Some((c, s))) => {
                let mut v: Vec<u8> = Vec::new();
                v.push((c >> 8u16) as u8);
                v.push((c & 0xffu16) as u8);
                let mut t = vstd::slice::slice_to_vec(s.as_bytes());
                v.append(&mut t);
                v
            },
            Message::Close(None) => Vec::new(),
            Message::Ping(b) => vstd::slice::slice_to_vec(b),
            Message::Pong(b) => vstd::slice::slice_to_vec(b),
        };
        assert(data@ == payload_of(*self));
        if data.len() == 0 {
            return Vec::new();
        }
        let kind = match *self {
            Message::Text(_) => Kind::Text,
            Message::Binary(_) => Kind::Binary,
            Message::Close(_) => Kind::Close,
            Message::Ping(_) => Kind::Ping,
            Message::Pong(_) => Kind::Pong,
        };
        let header = Header {
            is_final: true,
            extensions: [false, false, false],
            kind,
            payload_len: data.len() as u64,
            masking_key: mask,
        };
        if let Some(key) = mask {
            key.apply(&mut data);
        }
        let hb = header.bytes();
        let mut out = vstd::slice::slice_to_vec(hb.as_slice());
        out.append(&mut data);
        out
    }

    /// The length of the payload.
    pub fn payload_len(&self) -> (r: usize)
        requires
            payload_of(*self).len() <= usize::MAX,
        ensures
            r == payload_of(*self).len(),
    {
        match *self {
            Message::Text(s) => s.len(),
            Message::Binary(b) => b.len(),
            Message::Close(Some((_, s))) => s.len() + 2,
            Message::Close(None) => 0,
            Message::Ping(b) => b.len(),
            Message::Pong(b) => b.len(),
        }
    }

    /// Appends the frame that carries this message to `out`. A message with
    /// an empty payload is not sent. A client masks the frame with a fresh
    /// random key; `false` when no key could be had, and then `out` is left
    /// as it was.
    pub fn write(&self, ctx: Context, out: &mut Vec<u8>) -> (ok: bool)
        requires
            payload_of(*self).len() <= usize::MAX,
        ensures
            payload_of(*self).len() == 0 ==> ok && final(out)@ == old(out)@,
            ok && payload_of(*self).len() > 0 ==> exists|mask: Option<MaskingKey>|
                (mask is Some <==> ctx == Context::Client) && final(out)@ == old(out)@ + frame_of(
                    *self,
                    mask,
                ),
            !ok ==> final(out)@ == old(out)@ && ctx == Context::Client,
    {
        if self.payload_len() == 0 {
            return true;
        }
        let mask = match ctx {
            Context::Client => match MaskingKey::new() {
                Some(k) => Some(k),
                None => return false,
            },
            Context::Server => None,
        };
        let mut frame = self.encode(mask);
        out.append(&mut frame);
        true
    }
}

} // verus!
