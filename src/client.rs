use vstd::prelude::*;

use crate::channel::{
    extends, io_failure, lemma_extends_append, lemma_extends_trans, Channel, Link,
};
use crate::error::{Error, INVALID_INFALLIBLE_RESULT, INVALID_RESULT, INVALID_TYPE};
use crate::procedure::{
    descriptor_bytes, flags_byte, models, table_bytes, type_bytes, well_formed_table, Procedure,
    ProcedureModel,
};
use crate::types::{Type, Value};
use crate::wire::{be16, be16_value, lemma_be16_round_trip};

verus! {

/// The µRPC protocol version this library implements.
pub const VERSION: u8 = 0;

/// Request opcode asking for the server's protocol version.
pub const REQUEST_VERSION: u8 = 0;

/// Request opcode asking for the server's procedure table.
pub const REQUEST_ENUMERATE: u8 = 1;

/// Request opcode calling a procedure.
pub const REQUEST_CALL: u8 = 2;

/// What the server answers to the version and enumeration requests when it
/// exports table `t`: success and its version, then success, the number of
/// procedures and their descriptors.
pub open spec fn enumeration_reply(t: Seq<ProcedureModel>) -> Seq<u8> {
    seq![0u8, VERSION, 0u8] + be16(t.len() as u16) + table_bytes(t)
}

/// The encodings of a sequence of values, one after another.
pub open spec fn values_bytes(args: Seq<Value>) -> Seq<u8>
    decreases args.len(),
{
    if args.len() == 0 {
        Seq::<u8>::empty()
    } else {
        values_bytes(args.drop_last()) + args.last().encoding()
    }
}

/// A call request: the opcode, the procedure id in network order, then
/// each argument's encoding, with no length prefixes.
pub open spec fn call_request(id: u16, args: Seq<Value>) -> Seq<u8> {
    seq![REQUEST_CALL] + be16(id) + values_bytes(args)
}

/// The encodings of the first `j` values start the encodings of all.
proof fn lemma_values_bytes_prefix(args: Seq<Value>, j: int)
    requires
        0 <= j <= args.len(),
    ensures
        extends(values_bytes(args), values_bytes(args.subrange(0, j))),
    decreases args.len(),
{
    if j == args.len() {
        assert(args.subrange(0, j) =~= args);
        lemma_extends_append(values_bytes(args), Seq::<u8>::empty());
        assert(values_bytes(args) + Seq::<u8>::empty() =~= values_bytes(args));
    } else {
        let front = args.drop_last();
        lemma_values_bytes_prefix(front, j);
        assert(front.subrange(0, j) =~= args.subrange(0, j));
        lemma_extends_append(values_bytes(front), args.last().encoding());
        lemma_extends_trans(
            values_bytes(args),
            values_bytes(front),
            values_bytes(args.subrange(0, j)),
        );
    }
}

/// The index of the first argument from `i` on whose type differs from
/// the declared parameter type, or the number of parameters if none does.
pub open spec fn first_mismatch(params: Seq<Type>, args: Seq<Value>, i: nat) -> nat
    decreases params.len() - i,
{
    if i >= params.len() || i >= args.len() || args[i as int].type_of() != params[i as int] {
        i
    } else {
        first_mismatch(params, args, i + 1)
    }
}

/// The verdict on calling procedure `id` of table `t` with `args`: the
/// procedure's return type when the call may go out, else the error. An id
/// out of range comes first, then a count mismatch, then the first argument
/// (from the left) of the wrong type.
pub open spec fn call_check(t: Seq<ProcedureModel>, id: u16, args: Seq<Value>) -> Result<
    Option<Type>,
    Error,
> {
    if id >= t.len() {
        Err(Error::ProcOutOfRange)
    } else {
        let params = t[id as int].parameters;
        if args.len() != params.len() {
            Err(
                Error::MismatchedArgumentCount {
                    expected: params.len() as u16,
                    found: args.len() as usize,
                },
            )
        } else {
            let k = first_mismatch(params, args, 0);
            if k < params.len() {
                Err(
                    Error::MismatchedArguments {
                        index: k as u8,
                        expected: params[k as int],
                        found: args[k as int].type_of(),
                    },
                )
            } else {
                Ok(t[id as int].returns)
            }
        }
    }
}

/// What a call that passed validation leaves behind, given the traffic
/// `s`/`rcv` before it and `s2`/`rcv2` after it: the request went out in
/// full unless the channel failed, then the server's result byte, then
/// the return value if the procedure has one.
pub open spec fn call_exchange(
    ret: Option<Type>,
    id: u16,
    args: Seq<Value>,
    r: Result<Option<Value>, Error>,
    s: Seq<u8>,
    rcv: Seq<u8>,
    s2: Seq<u8>,
    rcv2: Seq<u8>,
) -> bool {
    match r {
        Ok(v) => {
            &&& s2 == s + call_request(id, args)
            &&& match ret {
                None => v is None && rcv2 == rcv.push(0),
                Some(ty) => {
                    &&& v is Some
                    &&& v->Some_0.type_of() == ty
                    &&& rcv2 == rcv.push(0) + v->Some_0.encoding()
                },
            }
        },
        Err(Error::GenericError) => s2 == s + call_request(id, args) && rcv2 == rcv.push(1),
        Err(Error::ProtocolError { description }) => {
            &&& description == INVALID_RESULT
            &&& s2 == s + call_request(id, args)
            &&& rcv2.len() == rcv.len() + 1
            &&& rcv2 == rcv.push(rcv2.last())
            &&& rcv2.last() > 1
        },
        Err(Error::IoError(_)) => {
            &&& extends(s + call_request(id, args), s2)
            &&& extends(s2, s)
            &&& extends(rcv2, rcv)
        },
        _ => false,
    }
}

/// Checks a call of procedure `id` with `arguments` against the table
/// `procs`, before anything is sent. Returns the procedure's return type.
pub fn check_call(procs: &[Procedure], id: u16, arguments: &[Value]) -> (r: Result<
    Option<Type>,
    Error,
>)
    requires
        well_formed_table(models(procs@)),
    ensures
        r == call_check(models(procs@), id, arguments@),
{
    if id as usize >= procs.len() {
        return Err(Error::ProcOutOfRange);
    }
    let procedure = &procs[id as usize];
    assert(models(procs@)[id as int] == procedure@);
    assert(models(procs@)[id as int].id == id);
    let params = procedure.parameter_types();
    if arguments.len() != params.len() {
        return Err(
            Error::MismatchedArgumentCount { expected: params.len() as u16, found: arguments.len() },
        );
    }
    let mut i: usize = 0;
    while i < arguments.len()
        invariant
            i <= arguments@.len(),
            arguments@.len() == params@.len(),
            params@.len() <= 127,
            (id as int) < procs@.len(),
            params@ == models(procs@)[id as int].parameters,
            procedure@ == models(procs@)[id as int],
            first_mismatch(params@, arguments@, 0) == first_mismatch(params@, arguments@, i as nat),
        decreases arguments@.len() - i,
    {
        let found = arguments[i].ty();
        if found != params[i] {
            return Err(Error::MismatchedArguments { index: i as u8, expected: params[i], found });
        }
        i = i + 1;
    }
    Ok(procedure.return_type())
}

/// Interprets the result byte of a call: `0x00` is success, `0x01` the
/// server's generic failure, anything else a protocol violation.
pub fn result_of(b: u8) -> (r: Result<(), Error>)
    ensures
        b == 0 <==> r is Ok,
        b == 1 <==> r == Err::<(), Error>(Error::GenericError),
        b > 1 <==> r == Err::<(), Error>(Error::ProtocolError { description: INVALID_RESULT }),
{
    match b {
        0x00 => Ok(()),
        0x01 => Err(Error::GenericError),
        _ => Err(Error::ProtocolError { description: INVALID_RESULT }),
    }
}

/// Interprets the result byte of a request that cannot fail: anything but
/// `0x00` is a protocol violation.
pub fn infallible_result_of(b: u8) -> (r: Result<(), Error>)
    ensures
        b == 0 <==> r is Ok,
        b != 0 <==> r == Err::<(), Error>(
            Error::ProtocolError { description: INVALID_INFALLIBLE_RESULT },
        ),
{
    match b {
        0x00 => Ok(()),
        _ => Err(Error::ProtocolError { description: INVALID_INFALLIBLE_RESULT }),
    }
}

/// Splits a descriptor's flags byte into whether the procedure returns a
/// value (the high bit) and its number of parameters (the low seven bits).
pub fn split_flags(flags: u8) -> (r: (bool, u8))
    ensures
        r.0 == (flags >= 0x80),
        r.1 == flags % 0x80,
        flags == (if r.0 { 0x80u8 } else { 0u8 }) + r.1,
{
    let has_return_value = flags & 0x80 != 0;
    let num_params = flags & 0x7f;
    assert(has_return_value == (flags >= 0x80)) by (bit_vector)
        requires
            has_return_value == (flags & 0x80 != 0),
    ;
    assert(num_params == flags % 0x80) by (bit_vector)
        requires
            num_params == flags & 0x7f,
    ;
    (has_return_value, num_params)
}

/// `d`, read in answer to the version request, starts with success and
/// this library's version.
pub open spec fn version_accepted(d: Seq<u8>) -> bool {
    d.len() >= 2 && d[0] == 0 && d[1] == VERSION
}

/// `d`, read from the start of a descriptor, ends in a type byte that
/// names no type, and every type byte before it is valid.
pub open spec fn bad_descriptor(d: Seq<u8>) -> bool {
    &&& d.len() >= 2
    &&& d.last() > 1
    &&& d.len() - 1 <= (if d[0] >= 0x80 { 1int } else { 0int }) + d[0] % 0x80
    &&& forall|j: int| 1 <= j < d.len() - 1 ==> #[trigger] d[j] <= 1
}

/// `d`, read in answer to the version and enumeration requests, breaks
/// the protocol at its last byte: a result byte other than success, or a
/// type byte in a descriptor that names no type.
pub open spec fn broken_reply(d: Seq<u8>) -> bool {
    ||| d.len() == 1 && d[0] != 0
    ||| d.len() == 3 && d[0] == 0 && d[1] == VERSION && d[2] != 0
    ||| {
        &&& d.len() > 5
        &&& d[0] == 0 && d[1] == VERSION && d[2] == 0
        &&& exists|t: Seq<ProcedureModel>|
            {
                &&& well_formed_table(t)
                &&& t.len() < be16_value(d[3], d[4])
                &&& extends(d.subrange(5, d.len() as int), #[trigger] table_bytes(t))
                &&& bad_descriptor(d.subrange(5 + table_bytes(t).len() as int, d.len() as int))
            }
    }
}

/// A client connected to a µRPC server.
pub struct Client<C: Channel> {
    link: Link<C>,
    procedures: Option<Vec<Procedure>>,
}

impl<C: Channel> Client<C> {
    /// The bytes this client has handed to the channel for writing.
    pub closed spec fn sent(&self) -> Seq<u8> {
        self.link.sent()
    }

    /// The bytes this client has read from the channel.
    pub closed spec fn received(&self) -> Seq<u8> {
        self.link.received()
    }

    /// How many times the channel has reported a failure to this client.
    pub closed spec fn failures(&self) -> nat {
        self.link.failures()
    }

    /// The cached procedure table, if enumeration has succeeded.
    pub closed spec fn cache(&self) -> Option<Seq<ProcedureModel>> {
        match self.procedures {
            Some(p) => Some(models(p@)),
            None => None,
        }
    }

    /// The cached table, when there is one, is well formed.
    pub open spec fn wf(&self) -> bool {
        self.cache() is Some ==> well_formed_table(self.cache()->Some_0)
    }

    /// What an enumeration from `pre` to `post` with result `r` guarantees:
    /// on success exactly the two requests went out, the server's reply is
    /// exactly the returned table, and the table is installed; on failure the
    /// cache is left as it was. A version mismatch is reported exactly when
    /// the server's version byte differs, and nothing follows it. An I/O
    /// error is reported exactly when the channel reported a failure. On a
    /// protocol error the last byte read is one that the protocol forbids at
    /// its place.
    pub open spec fn enumeration_post(
        pre: &Self,
        post: &Self,
        r: Result<Seq<ProcedureModel>, Error>,
    ) -> bool {
        &&& post.wf()
        &&& post.failures() == pre.failures() + io_failure(r)
        &&& match r {
            Ok(t) => {
                &&& post.cache() == Some(t)
                &&& well_formed_table(t)
                &&& post.sent() == pre.sent() + seq![REQUEST_VERSION, REQUEST_ENUMERATE]
                &&& post.received() == pre.received() + enumeration_reply(t)
            },
            Err(e) => {
                &&& post.cache() == pre.cache()
                &&& post.sent() == pre.sent() + if version_accepted(
                    post.received().subrange(
                        pre.received().len() as int,
                        post.received().len() as int,
                    ),
                ) {
                    seq![REQUEST_VERSION, REQUEST_ENUMERATE]
                } else {
                    seq![REQUEST_VERSION]
                }
                &&& match e {
                    Error::MismatchedVersion { ours, theirs } => {
                        &&& ours == VERSION
                        &&& theirs != VERSION
                        &&& post.sent() == pre.sent() + seq![REQUEST_VERSION]
                        &&& post.received() == pre.received() + seq![0u8, theirs]
                    },
                    Error::IoError(_) => {
                        post.received().len() >= pre.received().len() + 2
                            ==> post.received()[pre.received().len() + 1int] == VERSION
                    },
                    Error::ProtocolError { description } => {
                        &&& description == if post.received().len() <= pre.received().len()
                            + 3 {
                            INVALID_INFALLIBLE_RESULT
                        } else {
                            INVALID_TYPE
                        }
                        &&& extends(post.received(), pre.received())
                        &&& broken_reply(
                            post.received().subrange(
                                pre.received().len() as int,
                                post.received().len() as int,
                            ),
                        )
                        &&& post.received().len() >= pre.received().len() + 2
                            ==> post.received()[pre.received().len() + 1int] == VERSION
                    },
                    _ => false,
                }
            },
        }
    }

    /// What looking up the table from `pre` to `post` with result `r`
    /// guarantees: a cached table is returned with no traffic at all;
    /// otherwise it is an enumeration.
    pub open spec fn lookup_post(
        pre: &Self,
        post: &Self,
        r: Result<Seq<ProcedureModel>, Error>,
    ) -> bool {
        if pre.cache() is Some {
            &&& r == Ok::<Seq<ProcedureModel>, Error>(pre.cache()->Some_0)
            &&& post.cache() == pre.cache()
            &&& post.sent() == pre.sent()
            &&& post.received() == pre.received()
            &&& post.failures() == pre.failures()
            &&& post.wf()
        } else {
            Self::enumeration_post(pre, post, r)
        }
    }

    /// What a call of procedure `id` with `args` from `pre` to `post` with
    /// result `r` guarantees. The table is looked up first (enumerating if
    /// nothing is cached); if that fails, the call fails as the enumeration
    /// did. Otherwise, when validation fails nothing more is sent or read
    /// and its error is the result; when it passes, the request goes out.
    /// An I/O error is reported exactly when the channel reported a failure.
    pub open spec fn call_post(
        pre: &Self,
        post: &Self,
        id: u16,
        args: Seq<Value>,
        r: Result<Option<Value>, Error>,
    ) -> bool {
        &&& post.wf()
        &&& post.failures() == pre.failures() + io_failure(r)
        &&& match post.cache() {
            None => {
                &&& pre.cache() is None
                &&& r is Err
                &&& Self::enumeration_post(pre, post, Err(r->Err_0))
            },
            Some(t) => {
                let s = if pre.cache() is Some {
                    pre.sent()
                } else {
                    pre.sent() + seq![REQUEST_VERSION, REQUEST_ENUMERATE]
                };
                let rcv = if pre.cache() is Some {
                    pre.received()
                } else {
                    pre.received() + enumeration_reply(t)
                };
                &&& pre.cache() is Some ==> pre.cache() == Some(t)
                &&& match call_check(t, id, args) {
                    Err(e) => r == Err::<Option<Value>, Error>(e) && post.sent() == s
                        && post.received() == rcv,
                    Ok(ret) => call_exchange(
                        ret,
                        id,
                        args,
                        r,
                        s,
                        rcv,
                        post.sent(),
                        post.received(),
                    ),
                }
            },
        }
    }

    /// Creates a client that talks to a server over `channel`.
    pub fn new(channel: C) -> (r: Self)
        ensures
            r.wf(),
            r.cache() is None,
            r.sent() == Seq::<u8>::empty(),
            r.received() == Seq::<u8>::empty(),
            r.failures() == 0,
    {
        Client { link: Link::new(channel), procedures: None }
    }

    /// The channel the client talks over.
    pub fn channel(&self) -> &C {
        self.link.channel()
    }

    /// Reads a result byte: `0x00` is success, `0x01` the server's generic
    /// failure, anything else a protocol violation.
    fn read_result(&mut self) -> (r: Result<(), Error>)
        ensures
            final(self).failures() == old(self).failures() + io_failure(r),
            final(self).sent() == old(self).sent(),
            final(self).procedures == old(self).procedures,
            match r {
                Ok(()) => final(self).received() == old(self).received().push(0),
                Err(Error::GenericError) => final(self).received() == old(self).received().push(1),
                Err(Error::ProtocolError { description }) => {
                    &&& description == INVALID_RESULT
                    &&& final(self).received().len() == old(self).received().len() + 1
                    &&& final(self).received() == old(self).received().push(
                        final(self).received().last(),
                    )
                    &&& final(self).received().last() > 1
                },
                Err(Error::IoError(_)) => final(self).received() == old(self).received(),
                _ => false,
            },
    {
        let b = self.link.recv_u8()?;
        result_of(b)
    }

    /// Reads the result byte of a request that cannot fail: anything but
    /// success is a protocol violation.
    fn read_success(&mut self) -> (r: Result<(), Error>)
        ensures
            final(self).failures() == old(self).failures() + io_failure(r),
            final(self).sent() == old(self).sent(),
            final(self).procedures == old(self).procedures,
            match r {
                Ok(()) => final(self).received() == old(self).received().push(0),
                Err(Error::ProtocolError { description }) => {
                    &&& description == INVALID_INFALLIBLE_RESULT
                    &&& final(self).received().len() == old(self).received().len() + 1
                    &&& final(self).received() == old(self).received().push(
                        final(self).received().last(),
                    )
                    &&& final(self).received().last() != 0
                },
                Err(Error::IoError(_)) => final(self).received() == old(self).received(),
                _ => false,
            },
    {
        let b = self.link.recv_u8()?;
        infallible_result_of(b)
    }

    /// Reads one procedure descriptor with id `id`.
    fn read_procedure(&mut self, id: u16) -> (r: Result<Procedure, Error>)
        ensures
            final(self).failures() == old(self).failures() + io_failure(r),
            final(self).sent() == old(self).sent(),
            final(self).procedures == old(self).procedures,
            r is Err ==> r->Err_0 is IoError || r->Err_0 is ProtocolError,
            extends(final(self).received(), old(self).received()),
            r is Err && r->Err_0 is ProtocolError ==> r->Err_0->ProtocolError_description
                == INVALID_TYPE,
            r is Err && r->Err_0 is ProtocolError ==> bad_descriptor(
                final(self).received().subrange(
                    old(self).received().len() as int,
                    final(self).received().len() as int,
                ),
            ),
            r is Ok ==> {
                &&& r->Ok_0@.id == id
                &&& r->Ok_0@.parameters.len() <= 127
                &&& final(self).received() == old(self).received() + descriptor_bytes(r->Ok_0@)
            },
    {
        let flags = self.link.recv_u8()?;
        let (has_return_value, num_params) = split_flags(flags);
        let ghost start = self.link.received();
        proof {
            lemma_extends_append(old(self).received(), seq![flags]);
            assert(start == old(self).received() + seq![flags]);
        }
        let return_type = if has_return_value {
            proof {
                lemma_extends_trans(self.link.received(), start, old(self).received());
            }
            Some(Type::read(&mut self.link)?)
        } else {
            None
        };
        let ghost ret_bytes = match return_type {
            Some(t) => seq![t.wire_byte()],
            None => Seq::<u8>::empty(),
        };
        let mut params: Vec<Type> = Vec::new();
        let mut k: u8 = 0;
        while k < num_params
            invariant
                k <= num_params,
                params@.len() == k,
                self.link.sent() == old(self).sent(),
                self.procedures == old(self).procedures,
                self.link.received() == start + ret_bytes + type_bytes(params@),
                self.link.failures() == old(self).link.failures(),
                start == old(self).received() + seq![flags],
                has_return_value == (flags >= 0x80),
                num_params == flags % 0x80,
                ret_bytes.len() == if has_return_value {
                    1int
                } else {
                    0int
                },
                forall|j: int| 0 <= j < ret_bytes.len() ==> #[trigger] ret_bytes[j] <= 1,
                extends(start, old(self).received()),
            decreases num_params - k,
        {
            proof {
                lemma_extends_append(start, ret_bytes + type_bytes(params@));
                assert(self.link.received() == start + (ret_bytes + type_bytes(params@)));
                lemma_extends_trans(self.link.received(), start, old(self).received());
            }
            let t = match Type::read(&mut self.link) {
                Ok(t) => t,
                Err(e) => {
                    proof {
                        if e is ProtocolError {
                            let rcv = self.link.received();
                            let d = rcv.subrange(old(self).received().len() as int, rcv.len() as int);
                            let seen = ret_bytes + type_bytes(params@);
                            assert(d =~= seq![flags] + seen + seq![rcv.last()]);
                            assert forall|j: int| 1 <= j < d.len() - 1 implies #[trigger] d[j]
                                <= 1 by {
                                assert(d[j] == seen[j - 1]);
                                if j - 1 >= ret_bytes.len() {
                                    assert(seen[j - 1] == type_bytes(params@)[j - 1
                                        - ret_bytes.len()]);
                                }
                            }
                        }
                    }
                    return Err(e);
                },
            };
            let ghost before = params@;
            params.push(t);
            assert(type_bytes(params@) =~= type_bytes(before).push(t.wire_byte()));
            k = k + 1;
        }
        let p = Procedure::new(id, params, return_type);
        assert(self.link.received() =~= old(self).received() + descriptor_bytes(p@));
        Ok(p)
    }

    /// Re-enumerates the server's procedures and caches them.
    ///
    /// Checks the server's protocol version first. The cache is replaced only
    /// when the whole table has been read.
    pub fn enumerate(&mut self) -> (r: Result<&[Procedure], Error>)
        requires
            old(self).wf(),
        ensures
            Self::enumeration_post(
                old(self),
                final(self),
                match r {
                    Ok(procs) => Ok(models(procs@)),
                    Err(e) => Err(e),
                },
            ),
    {
        let ghost s0 = self.link.sent();
        let ghost r0 = self.link.received();
        assert(s0.push(REQUEST_VERSION) =~= s0 + seq![REQUEST_VERSION]);
        assert((s0 + seq![REQUEST_VERSION]).push(REQUEST_ENUMERATE) =~= s0 + seq![
            REQUEST_VERSION,
            REQUEST_ENUMERATE,
        ]);
        self.link.send_u8(REQUEST_VERSION)?;
        self.read_success()?;
        let server_version = self.link.recv_u8()?;
        if server_version != VERSION {
            assert(self.link.received() =~= r0 + seq![0u8, server_version]);
            return Err(Error::MismatchedVersion { ours: VERSION, theirs: server_version });
        }
        self.link.send_u8(REQUEST_ENUMERATE)?;
        self.read_success()?;
        let num_procs = self.link.recv_u16()?;
        let ghost head = r0 + seq![0u8, VERSION, 0u8] + be16(num_procs);
        assert(self.link.received() =~= head);
        let mut procs: Vec<Procedure> = Vec::new();
        let mut i: u16 = 0;
        while i < num_procs
            invariant
                i <= num_procs,
                procs@.len() == i,
                well_formed_table(models(procs@)),
                self.link.sent() == s0 + seq![REQUEST_VERSION, REQUEST_ENUMERATE],
                self.link.received() == head + table_bytes(models(procs@)),
                self.link.failures() == old(self).link.failures(),
                self.procedures == old(self).procedures,
                old(self).wf(),
                s0 == old(self).sent(),
                r0 == old(self).received(),
                head == r0 + seq![0u8, VERSION, 0u8] + be16(num_procs),
                head.len() == r0.len() + 5,
                head[r0.len() + 1int] == VERSION,
            decreases num_procs - i,
        {
            proof {
                lemma_extends_append(head, table_bytes(models(procs@)));
            }
            let ghost cur = self.link.received();
            let p = match self.read_procedure(i) {
                Ok(p) => p,
                Err(e) => {
                    proof {
                        if e is ProtocolError {
                            let t = models(procs@);
                            let rcv = self.link.received();
                            let d = rcv.subrange(r0.len() as int, rcv.len() as int);
                            let tb = table_bytes(t);
                            lemma_be16_round_trip(num_procs);
                            assert(d.subrange(0, 5) =~= head.subrange(
                                r0.len() as int,
                                r0.len() + 5int,
                            ));
                            assert(d[3] == be16(num_procs)[0] && d[4] == be16(num_procs)[1]);
                            assert(d.subrange(5 + tb.len() as int, d.len() as int) =~= rcv.subrange(
                                cur.len() as int,
                                rcv.len() as int,
                            ));
                            assert forall|k: int| 0 <= k < tb.len() implies #[trigger] d.subrange(
                                5,
                                d.len() as int,
                            )[k] == tb[k] by {
                                assert(rcv[r0.len() + 5 + k] == cur[r0.len() + 5 + k]);
                            }
                            assert(extends(d.subrange(5, d.len() as int), tb));
                        }
                    }
                    return Err(e);
                },
            };
            let ghost before = procs@;
            procs.push(p);
            assert(models(procs@) =~= models(before).push(p@));
            assert(models(procs@).drop_last() =~= models(before));
            i = i + 1;
        }
        assert(self.link.received() =~= r0 + enumeration_reply(models(procs@)));
        self.procedures = Some(procs);
        Ok(self.procedures.as_ref().unwrap().as_slice())
    }

    /// Gets the server's procedures: the cached table if there is one, with
    /// no traffic, else the result of `enumerate`.
    pub fn procedures(&mut self) -> (r: Result<&[Procedure], Error>)
        requires
            old(self).wf(),
        ensures
            Self::lookup_post(
                old(self),
                final(self),
                match r {
                    Ok(procs) => Ok(models(procs@)),
                    Err(e) => Err(e),
                },
            ),
    {
        if self.procedures.is_none() {
            return self.enumerate();
        }
        Ok(self.procedures.as_ref().unwrap().as_slice())
    }

    /// Calls procedure `id` with `arguments` and returns its return value,
    /// if it has one.
    ///
    /// The arguments are checked against the procedure's declared
    /// parameters before anything is sent: a call that fails the check
    /// writes nothing.
    pub fn call(&mut self, id: u16, arguments: &[Value]) -> (r: Result<Option<Value>, Error>)
        requires
            old(self).wf(),
        ensures
            Self::call_post(old(self), final(self), id, arguments@, r),
    {
        let ghost t: Seq<ProcedureModel>;
        let return_type = {
            let procs = self.procedures()?;
            proof {
                t = models(procs@);
            }
            check_call(procs, id, arguments)?
        };
        let ghost s = self.link.sent();
        let ghost rcv = self.link.received();
        let ghost cache = self.cache();
        let ghost f = self.link.failures();
        self.link.send_u8(REQUEST_CALL)?;
        self.link.send_u16(id)?;
        let mut i: usize = 0;
        while i < arguments.len()
            invariant
                i <= arguments@.len(),
                self.link.sent() == s + seq![REQUEST_CALL] + be16(id) + values_bytes(
                    arguments@.subrange(0, i as int),
                ),
                self.link.received() == rcv,
                self.link.failures() == f,
                f == old(self).failures(),
                self.cache() == cache,
                self.wf(),
                cache == Some(t),
                call_check(t, id, arguments@) == Ok::<Option<Type>, Error>(return_type),
                old(self).cache() is Some ==> old(self).cache() == Some(t),
                old(self).cache() is Some ==> s == old(self).sent() && rcv == old(self).received(),
                old(self).cache() is None ==> s == old(self).sent() + seq![
                    REQUEST_VERSION,
                    REQUEST_ENUMERATE,
                ],
                old(self).cache() is None ==> rcv == old(self).received() + enumeration_reply(t),
            decreases arguments@.len() - i,
        {
            proof {
                let head = s + seq![REQUEST_CALL] + be16(id);
                lemma_values_bytes_prefix(arguments@, i + 1);
                lemma_extends_append(head, values_bytes(arguments@));
                assert(head + values_bytes(arguments@) =~= s + call_request(id, arguments@));
                lemma_extends_append(head, values_bytes(arguments@.subrange(0, i + 1)));
                assert forall|k: int| 0 <= k < (head + values_bytes(arguments@.subrange(0, i + 1))).len()
                    implies #[trigger] (s + call_request(id, arguments@))[k] == (head + values_bytes(
                    arguments@.subrange(0, i + 1),
                ))[k] by {
                    if k >= head.len() {
                        assert((head + values_bytes(arguments@))[k] == values_bytes(arguments@)[k
                            - head.len()]);
                    }
                }
                assert(arguments@.subrange(0, i + 1).drop_last() =~= arguments@.subrange(
                    0,
                    i as int,
                ));
                lemma_extends_append(s, seq![REQUEST_CALL] + be16(id) + values_bytes(
                    arguments@.subrange(0, i + 1),
                ));
                assert(s + (seq![REQUEST_CALL] + be16(id) + values_bytes(arguments@.subrange(0, i + 1)))
                    =~= head + values_bytes(arguments@.subrange(0, i + 1)));
            }
            arguments[i].write(&mut self.link)?;
            assert(arguments@.subrange(0, i + 1).drop_last() =~= arguments@.subrange(0, i as int));
            i = i + 1;
        }
        assert(arguments@.subrange(0, i as int) =~= arguments@);
        assert(self.link.sent() =~= s + call_request(id, arguments@));
        self.read_result()?;
        match return_type {
            Some(ty) => {
                let v = Value::read(ty, &mut self.link)?;
                Ok(Some(v))
            },
            None => Ok(None),
        }
    }
}

/// Scanning from `i`, the first mismatch is `k` when every argument from
/// `i` up to `k` fits and argument `k` does not.
proof fn lemma_first_mismatch_at(params: Seq<Type>, args: Seq<Value>, i: nat, k: nat)
    requires
        i <= k < params.len(),
        k < args.len(),
        args[k as int].type_of() != params[k as int],
        forall|j: int| i <= j < k ==> args[j].type_of() == params[j],
    ensures
        first_mismatch(params, args, i) == k,
    decreases k - i,
{
    if i < k {
        lemma_first_mismatch_at(params, args, i + 1, k);
    }
}

/// A count mismatch is reported exactly when the number of arguments
/// differs from the number of parameters; when the numbers agree, the
/// error names the leftmost argument of the wrong type.
pub proof fn lemma_check_order(t: Seq<ProcedureModel>, id: u16, args: Seq<Value>)
    requires
        well_formed_table(t),
        id < t.len(),
    ensures
        args.len() != t[id as int].parameters.len() ==> call_check(t, id, args) == Err::<
            Option<Type>,
            Error,
        >(
            Error::MismatchedArgumentCount {
                expected: t[id as int].parameters.len() as u16,
                found: args.len() as usize,
            },
        ),
        args.len() == t[id as int].parameters.len() ==> forall|k: int|
            0 <= k < args.len() && #[trigger] args[k].type_of() != t[id as int].parameters[k]
                && (forall|j: int| 0 <= j < k ==> args[j].type_of() == t[id as int].parameters[j])
                ==> call_check(t, id, args) == Err::<Option<Type>, Error>(
                Error::MismatchedArguments {
                    index: k as u8,
                    expected: t[id as int].parameters[k],
                    found: args[k].type_of(),
                },
            ),
        call_check(t, id, args) is Ok <==> args.len() == t[id as int].parameters.len() && forall|
            j: int,
        | 0 <= j < args.len() ==> #[trigger] args[j].type_of() == t[id as int].parameters[j],
{
    let params = t[id as int].parameters;
    assert(t[id as int].id == id);
    if args.len() == params.len() {
        assert forall|k: int|
            0 <= k < args.len() && #[trigger] args[k].type_of() != params[k] && (forall|j: int|
                0 <= j < k ==> args[j].type_of() == params[j]) implies first_mismatch(
            params,
            args,
            0,
        ) == k by {
            lemma_first_mismatch_at(params, args, 0, k as nat);
        }
        lemma_first_mismatch_bound(params, args, 0);
    }
}

/// The first mismatch from `i` on is at least `i`, at most the number of
/// parameters, and every argument before it fits; it is the number of
/// parameters only when every argument from `i` on fits.
proof fn lemma_first_mismatch_bound(params: Seq<Type>, args: Seq<Value>, i: nat)
    requires
        args.len() == params.len(),
        i <= params.len(),
    ensures
        i <= first_mismatch(params, args, i) <= params.len(),
        forall|j: int| i <= j < first_mismatch(params, args, i) ==> args[j].type_of() == params[j],
        first_mismatch(params, args, i) < params.len() ==> args[first_mismatch(params, args, i) as int].type_of()
            != params[first_mismatch(params, args, i) as int],
    decreases params.len() - i,
{
    if i < params.len() && args[i as int].type_of() == params[i as int] {
        lemma_first_mismatch_bound(params, args, i + 1);
    }
}

/// Looking the table up twice in a row, with no explicit re-enumeration in
/// between, runs the version check and the enumeration at most once: the
/// second lookup returns the same table and sends and reads nothing.
pub proof fn lemma_lookup_memoized<C: Channel>(
    pre: Client<C>,
    mid: Client<C>,
    post: Client<C>,
    first: Result<Seq<ProcedureModel>, Error>,
    second: Result<Seq<ProcedureModel>, Error>,
)
    requires
        Client::lookup_post(&pre, &mid, first),
        first is Ok,
        Client::lookup_post(&mid, &post, second),
    ensures
        second == first,
        post.sent() == mid.sent(),
        post.received() == mid.received(),
        post.sent() == pre.sent() + if pre.cache() is Some {
            Seq::<u8>::empty()
        } else {
            seq![REQUEST_VERSION, REQUEST_ENUMERATE]
        },
{
}

/// The version check: once the server's version byte has been read, the
/// enumeration fails with a version mismatch naming that byte exactly when
/// it differs from this library's version, and then installs no table.
pub proof fn lemma_version_mismatch<C: Channel>(
    pre: Client<C>,
    post: Client<C>,
    r: Result<Seq<ProcedureModel>, Error>,
    theirs: u8,
)
    requires
        Client::enumeration_post(&pre, &post, r),
        post.received().len() >= pre.received().len() + 2,
        post.received()[pre.received().len() + 1int] == theirs,
    ensures
        theirs != VERSION ==> r == Err::<Seq<ProcedureModel>, Error>(
            Error::MismatchedVersion { ours: VERSION, theirs },
        ) && post.cache() == pre.cache(),
        theirs == VERSION ==> !(r is Err && r->Err_0 is MismatchedVersion),
{
    let k = pre.received().len() + 1int;
    if r is Ok {
        let t = r->Ok_0;
        assert(post.received()[k] == enumeration_reply(t)[1]);
    } else if r->Err_0 is MismatchedVersion {
        assert(post.received()[k] == r->Err_0->MismatchedVersion_theirs);
    }
}

/// A call that fails validation (id out of range, wrong number of
/// arguments, or an argument of the wrong type) writes nothing after the
/// table lookup; with a cached table it writes and reads nothing at all.
pub proof fn lemma_rejected_call_is_silent<C: Channel>(
    pre: Client<C>,
    post: Client<C>,
    id: u16,
    args: Seq<Value>,
    r: Result<Option<Value>, Error>,
)
    requires
        pre.cache() is Some,
        call_check(pre.cache()->Some_0, id, args) is Err,
        Client::call_post(&pre, &post, id, args, r),
    ensures
        r == Err::<Option<Value>, Error>(call_check(pre.cache()->Some_0, id, args)->Err_0),
        post.sent() == pre.sent(),
        post.received() == pre.received(),
        post.cache() == pre.cache(),
{
}

/// A call with an id at or past the end of the table fails as out of
/// range and writes nothing after the table lookup.
pub proof fn lemma_out_of_range_call<C: Channel>(
    pre: Client<C>,
    post: Client<C>,
    id: u16,
    args: Seq<Value>,
    r: Result<Option<Value>, Error>,
)
    requires
        Client::call_post(&pre, &post, id, args, r),
        post.cache() is Some,
        id >= post.cache()->Some_0.len(),
    ensures
        r == Err::<Option<Value>, Error>(Error::ProcOutOfRange),
        pre.cache() is Some ==> post.sent() == pre.sent(),
        pre.cache() is None ==> post.sent() == pre.sent() + seq![
            REQUEST_VERSION,
            REQUEST_ENUMERATE,
        ],
{
}

} // verus!
