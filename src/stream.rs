//! SOCKS5 messages over an in-memory byte stream: bytes that arrived from a
//! peer wait in a read buffer, and encoded messages collect in a write buffer
//! until the owner of the connection sends them.
use vstd::prelude::*;
use vstd::slice::slice_subrange;

use crate::codec::{
    decode_connect_reply, decode_connect_request, decode_method_candidates,
    decode_method_selection, decoded_as, encode_connect_reply, encode_connect_request,
    encode_method_candidates, encode_method_selection, spec_encode_candidates,
    spec_encode_reply, spec_encode_request, spec_encode_selection, spec_parse_candidates,
    spec_parse_reply, spec_parse_request, spec_parse_selection, addr_encodable, Parsed,
};
use crate::error::Error;
use crate::model::{ConnectReply, ConnectRequest, MethodCandidates, MethodSelection};

verus! {

/// Bytes to read, how far they have been read, and bytes written.
#[derive(Debug, Clone)]
pub struct BufferStream {
    rd_buff: Vec<u8>,
    rd_pos: usize,
    wr_buff: Vec<u8>,
}

impl BufferStream {
    /// All bytes received.
    pub closed spec fn input(&self) -> Seq<u8> {
        self.rd_buff@
    }

    /// How many of them have been consumed.
    pub closed spec fn position(&self) -> nat {
        self.rd_pos as nat
    }

    /// All bytes written.
    pub closed spec fn output(&self) -> Seq<u8> {
        self.wr_buff@
    }

    pub closed spec fn wf(&self) -> bool {
        self.rd_pos <= self.rd_buff@.len()
    }

    /// The bytes received and not yet consumed.
    pub open spec fn unread(&self) -> Seq<u8> {
        self.input().subrange(self.position() as int, self.input().len() as int)
    }

    pub fn new() -> (r: Self)
        ensures
            r.wf(),
            r.input() == Seq::<u8>::empty(),
            r.position() == 0,
            r.output() == Seq::<u8>::empty(),
    {
        BufferStream { rd_buff: Vec::new(), rd_pos: 0, wr_buff: Vec::new() }
    }

    /// A stream that will read `rd` and has already written `wr`.
    pub fn with_buffer(rd: Vec<u8>, wr: Vec<u8>) -> (r: Self)
        ensures
            r.wf(),
            r.input() == rd@,
            r.position() == 0,
            r.output() == wr@,
    {
        BufferStream { rd_buff: rd, rd_pos: 0, wr_buff: wr }
    }

    /// Appends bytes that arrived from the peer.
    pub fn push_input(&mut self, bytes: &mut Vec<u8>)
        requires
            old(self).wf(),
        ensures
            final(self).wf(),
            final(self).input() == old(self).input() + old(bytes)@,
            final(self).position() == old(self).position(),
            final(self).output() == old(self).output(),
    {
        self.rd_buff.append(bytes);
    }

    /// Hands out what was written and empties the write buffer.
    pub fn take_output(&mut self) -> (r: Vec<u8>)
        requires
            old(self).wf(),
        ensures
            final(self).wf(),
            r@ == old(self).output(),
            final(self).output() == Seq::<u8>::empty(),
            final(self).input() == old(self).input(),
            final(self).position() == old(self).position(),
    {
        let mut out: Vec<u8> = Vec::new();
        core::mem::swap(&mut out, &mut self.wr_buff);
        out
    }

    /// The read position.
    pub fn read_position(&self) -> (r: usize)
        ensures
            r == self.position(),
    {
        self.rd_pos
    }

    /// The bytes written so far.
    pub fn written(&self) -> (r: &Vec<u8>)
        ensures
            r@ == self.output(),
    {
        &self.wr_buff
    }

    /// The bytes not yet consumed, and the rest after them.
    pub fn remaining(&self) -> (r: &[u8])
        requires
            self.wf(),
        ensures
            r@ == self.unread(),
    {
        slice_subrange(self.rd_buff.as_slice(), self.rd_pos, self.rd_buff.len())
    }

    fn consume(&mut self, n: usize)
        requires
            old(self).wf(),
            old(self).position() + n <= old(self).input().len(),
        ensures
            final(self).wf(),
            final(self).position() == old(self).position() + n,
            final(self).input() == old(self).input(),
            final(self).output() == old(self).output(),
    {
        let len = self.rd_buff.len();
        assert(self.rd_pos + n <= len);
        self.rd_pos = self.rd_pos + n;
    }

    fn write_all(&mut self, bytes: &mut Vec<u8>)
        requires
            old(self).wf(),
        ensures
            final(self).wf(),
            final(self).output() == old(self).output() + old(bytes)@,
            final(self).input() == old(self).input(),
            final(self).position() == old(self).position(),
    {
        self.wr_buff.append(bytes);
    }
}

/// What a receive does to the stream: on success the message's bytes are
/// consumed; otherwise nothing is.
pub open spec fn received<T, V>(
    old_s: BufferStream,
    new_s: BufferStream,
    r: Result<T, Error>,
    p: Parsed<V>,
    view: spec_fn(T) -> V,
) -> bool {
    &&& new_s.wf()
    &&& new_s.input() == old_s.input()
    &&& new_s.output() == old_s.output()
    &&& match p {
        Parsed::Short => r == Err::<T, Error>(Error::Io) && new_s.position() == old_s.position(),
        Parsed::Malformed => (r matches Err(Error::MessageFormat { .. })) && new_s.position()
            == old_s.position(),
        Parsed::Done(v, n) => (r matches Ok(m) && view(m) == v) && new_s.position()
            == old_s.position() + n,
    }
}

/// SOCKS5 messages read from and written to a byte stream.
#[derive(Debug)]
pub struct ReadWriteStream {
    strm: BufferStream,
}

impl ReadWriteStream {
    pub closed spec fn inner(&self) -> BufferStream {
        self.strm
    }

    pub fn new(strm: BufferStream) -> (r: Self)
        ensures
            r.inner() == strm,
    {
        ReadWriteStream { strm }
    }

    pub fn into_inner(self) -> (r: BufferStream)
        ensures
            r == self.inner(),
    {
        self.strm
    }

    /// The underlying stream.
    pub fn stream(&mut self) -> (r: &mut BufferStream)
        ensures
            *r == old(self).inner(),
            final(self).inner() == *final(r),
    {
        &mut self.strm
    }

    /// Receives the client's method candidates.
    pub fn recv_method_candidates(&mut self) -> (r: Result<MethodCandidates, Error>)
        requires
            old(self).inner().wf(),
        ensures
            received(old(self).inner(), final(self).inner(), r, spec_parse_candidates(old(self).inner().unread()), |m: MethodCandidates| m@),
    {
        let res = decode_method_candidates(self.strm.remaining());
        match res {
            Ok((m, n)) => {
                self.strm.consume(n);
                Ok(m)
            },
            Err(e) => Err(e),
        }
    }

    /// Receives the proxy's method selection.
    pub fn recv_method_selection(&mut self) -> (r: Result<MethodSelection, Error>)
        requires
            old(self).inner().wf(),
        ensures
            received(old(self).inner(), final(self).inner(), r, spec_parse_selection(old(self).inner().unread()), |m: MethodSelection| m),
    {
        let res = decode_method_selection(self.strm.remaining());
        match res {
            Ok((m, n)) => {
                self.strm.consume(n);
                Ok(m)
            },
            Err(e) => Err(e),
        }
    }

    /// Receives the client's connect request.
    pub fn recv_connect_request(&mut self) -> (r: Result<ConnectRequest, Error>)
        requires
            old(self).inner().wf(),
        ensures
            received(old(self).inner(), final(self).inner(), r, spec_parse_request(old(self).inner().unread()), |m: ConnectRequest| m@),
    {
        let res = decode_connect_request(self.strm.remaining());
        match res {
            Ok((m, n)) => {
                self.strm.consume(n);
                Ok(m)
            },
            Err(e) => Err(e),
        }
    }

    /// Receives the proxy's connect reply.
    pub fn recv_connect_reply(&mut self) -> (r: Result<ConnectReply, Error>)
        requires
            old(self).inner().wf(),
        ensures
            received(old(self).inner(), final(self).inner(), r, spec_parse_reply(old(self).inner().unread()), |m: ConnectReply| m@),
    {
        let res = decode_connect_reply(self.strm.remaining());
        match res {
            Ok((m, n)) => {
                self.strm.consume(n);
                Ok(m)
            },
            Err(e) => Err(e),
        }
    }

    /// Writes method candidates; fails unless there are 1 to 255 methods.
    pub fn send_method_candidates(&mut self, m: MethodCandidates) -> (r: Result<(), Error>)
        requires
            old(self).inner().wf(),
        ensures
            final(self).inner().wf(),
            final(self).inner().input() == old(self).inner().input(),
            final(self).inner().position() == old(self).inner().position(),
            1 <= m.method@.len() <= 255 ==> r is Ok && final(self).inner().output() == old(self).inner().output() + spec_encode_candidates(m@),
            !(1 <= m.method@.len() <= 255) ==> (r matches Err(Error::InvalidInput { .. })) && final(self).inner().output() == old(self).inner().output(),
    {
        match encode_method_candidates(&m) {
            Ok(mut bytes) => {
                self.strm.write_all(&mut bytes);
                Ok(())
            },
            Err(e) => Err(e),
        }
    }

    /// Writes a method selection.
    pub fn send_method_selection(&mut self, m: MethodSelection) -> (r: Result<(), Error>)
        requires
            old(self).inner().wf(),
        ensures
            final(self).inner().wf(),
            final(self).inner().input() == old(self).inner().input(),
            final(self).inner().position() == old(self).inner().position(),
            r is Ok,
            final(self).inner().output() == old(self).inner().output() + spec_encode_selection(m),
    {
        let mut bytes = encode_method_selection(m);
        self.strm.write_all(&mut bytes);
        Ok(())
    }

    /// Writes a connect request; fails on a domain name over 255 bytes.
    pub fn send_connect_request(&mut self, m: ConnectRequest) -> (r: Result<(), Error>)
        requires
            old(self).inner().wf(),
        ensures
            final(self).inner().wf(),
            final(self).inner().input() == old(self).inner().input(),
            final(self).inner().position() == old(self).inner().position(),
            addr_encodable(m.connect_to@) ==> r is Ok && final(self).inner().output() == old(self).inner().output() + spec_encode_request(m@),
            !addr_encodable(m.connect_to@) ==> (r matches Err(Error::InvalidInput { .. })) && final(self).inner().output() == old(self).inner().output(),
    {
        match encode_connect_request(&m) {
            Ok(mut bytes) => {
                self.strm.write_all(&mut bytes);
                Ok(())
            },
            Err(e) => Err(e),
        }
    }

    /// Writes a connect reply in one piece; fails on a domain name over 255 bytes.
    pub fn send_connect_reply(&mut self, m: ConnectReply) -> (r: Result<(), Error>)
        requires
            old(self).inner().wf(),
        ensures
            final(self).inner().wf(),
            final(self).inner().input() == old(self).inner().input(),
            final(self).inner().position() == old(self).inner().position(),
            addr_encodable(m.server_addr@) ==> r is Ok && final(self).inner().output() == old(self).inner().output() + spec_encode_reply(m@),
            !addr_encodable(m.server_addr@) ==> (r matches Err(Error::InvalidInput { .. })) && final(self).inner().output() == old(self).inner().output(),
    {
        match encode_connect_reply(&m) {
            Ok(mut bytes) => {
                self.strm.write_all(&mut bytes);
                Ok(())
            },
            Err(e) => Err(e),
        }
    }
}

} // verus!
