use vstd::prelude::*;

use crate::error::Error;
use crate::wire::{be16, be16_value, read_be16, write_be16};

verus! {

/// `longer` starts with `shorter`.
pub open spec fn extends(longer: Seq<u8>, shorter: Seq<u8>) -> bool {
    &&& shorter.len() <= longer.len()
    &&& forall|i: int| 0 <= i < shorter.len() ==> #[trigger] longer[i] == shorter[i]
}

/// A sequence followed by more bytes starts with that sequence.
pub proof fn lemma_extends_append(a: Seq<u8>, b: Seq<u8>)
    ensures
        extends(a + b, a),
{
    assert forall|i: int| 0 <= i < a.len() implies #[trigger] (a + b)[i] == a[i] by {}
}

/// Starting with is transitive.
pub proof fn lemma_extends_trans(a: Seq<u8>, b: Seq<u8>, c: Seq<u8>)
    requires
        extends(a, b),
        extends(b, c),
    ensures
        extends(a, c),
{
    assert forall|i: int| 0 <= i < c.len() implies #[trigger] a[i] == c[i] by {
        assert(a[i] == b[i]);
    }
}

/// One when `r` reports a failure of the channel, else zero.
pub open spec fn io_failure<T>(r: Result<T, Error>) -> nat {
    if r is Err && r->Err_0 is IoError {
        1
    } else {
        0
    }
}

/// A duplex byte stream to a µRPC server: blocking reads of single bytes
/// and blocking writes of byte strings.
pub trait Channel {
    /// Reads one byte, blocking until it arrives.
    fn read_byte(&mut self) -> Result<u8, std::io::Error>;

    /// Writes all of `bytes`, blocking until they are accepted.
    fn write_bytes(&mut self, bytes: &[u8]) -> Result<(), std::io::Error>;
}

/// A channel together with a record of the traffic that went over it: the
/// bytes handed to it for writing and the bytes read from it, in order.
pub struct Link<C: Channel> {
    channel: C,
    sent: Ghost<Seq<u8>>,
    received: Ghost<Seq<u8>>,
    failures: Ghost<nat>,
}

impl<C: Channel> Link<C> {
    /// The bytes handed to the channel for writing so far.
    pub closed spec fn sent(&self) -> Seq<u8> {
        self.sent@
    }

    /// The bytes read from the channel so far.
    pub closed spec fn received(&self) -> Seq<u8> {
        self.received@
    }

    /// How many times the channel has reported a failure.
    pub closed spec fn failures(&self) -> nat {
        self.failures@
    }

    /// Starts recording over `channel`, with no traffic yet.
    pub fn new(channel: C) -> (r: Link<C>)
        ensures
            r.sent() == Seq::<u8>::empty(),
            r.received() == Seq::<u8>::empty(),
            r.failures() == 0,
    {
        Link {
            channel,
            sent: Ghost(Seq::empty()),
            received: Ghost(Seq::empty()),
            failures: Ghost(0),
        }
    }

    /// Reads one byte; an I/O failure is reported as such and reads nothing.
    pub fn recv_u8(&mut self) -> (r: Result<u8, Error>)
        ensures
            final(self).failures() == old(self).failures() + io_failure(r),
            final(self).sent() == old(self).sent(),
            match r {
                Ok(b) => final(self).received() == old(self).received().push(b),
                Err(e) => e is IoError && final(self).received() == old(self).received(),
            },
    {
        match self.channel.read_byte() {
            Ok(b) => {
                self.received = Ghost(self.received@.push(b));
                Ok(b)
            },
            Err(e) => {
                self.failures = Ghost(self.failures@ + 1);
                Err(Error::IoError(e))
            },
        }
    }

    /// Reads a 16-bit number sent in network order.
    pub fn recv_u16(&mut self) -> (r: Result<u16, Error>)
        ensures
            final(self).failures() == old(self).failures() + io_failure(r),
            final(self).sent() == old(self).sent(),
            match r {
                Ok(n) => final(self).received() == old(self).received() + be16(n),
                Err(e) => e is IoError && extends(final(self).received(), old(self).received()),
            },
    {
        let hi = self.recv_u8()?;
        let lo = self.recv_u8()?;
        let mut buf: Vec<u8> = Vec::new();
        buf.push(hi);
        buf.push(lo);
        let n = read_be16(buf.as_slice());
        assert(be16(n) =~= seq![hi, lo]);
        Ok(n)
    }

    /// Hands one byte to the channel for writing.
    pub fn send_u8(&mut self, b: u8) -> (r: Result<(), Error>)
        ensures
            final(self).failures() == old(self).failures() + io_failure(r),
            final(self).sent() == old(self).sent().push(b),
            final(self).received() == old(self).received(),
            r is Err ==> r->Err_0 is IoError,
    {
        let mut buf: Vec<u8> = Vec::new();
        buf.push(b);
        assert(old(self).sent() + buf@ =~= old(self).sent().push(b));
        self.send(buf.as_slice())
    }

    /// Hands a 16-bit number to the channel for writing, in network order.
    pub fn send_u16(&mut self, n: u16) -> (r: Result<(), Error>)
        ensures
            final(self).failures() == old(self).failures() + io_failure(r),
            final(self).sent() == old(self).sent() + be16(n),
            final(self).received() == old(self).received(),
            r is Err ==> r->Err_0 is IoError,
    {
        let b = write_be16(n);
        let mut buf: Vec<u8> = Vec::new();
        buf.push(b[0]);
        buf.push(b[1]);
        assert(buf@ =~= be16(n));
        self.send(buf.as_slice())
    }

    /// The channel itself.
    pub fn channel(&self) -> &C {
        &self.channel
    }

    /// Hands `bytes` to the channel for writing. They count as sent even when
    /// the channel reports a failure, which may come after part of them left.
    pub fn send(&mut self, bytes: &[u8]) -> (r: Result<(), Error>)
        ensures
            final(self).failures() == old(self).failures() + io_failure(r),
            final(self).sent() == old(self).sent() + bytes@,
            final(self).received() == old(self).received(),
            r is Err ==> r->Err_0 is IoError,
    {
        self.sent = Ghost(self.sent@ + bytes@);
        match self.channel.write_bytes(bytes) {
            Ok(()) => Ok(()),
            Err(e) => {
                self.failures = Ghost(self.failures@ + 1);
                Err(Error::IoError(e))
            },
        }
    }
}

} // verus!
