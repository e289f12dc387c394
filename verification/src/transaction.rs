//! One request/response exchange with a gateway.
//!
//! The request is sent once, and again only when an attempt ends without a
//! usable datagram.  Responses to earlier requests are skipped without
//! retransmitting.

use vstd::prelude::*;

use crate::addr::Ipv4Addr;
use crate::natpmp;
use crate::natpmp::{is_timeout, receive_into, ErrorKind, NatpmpError, RecvError};

verus! {

/// The number of times that a request is sent before the gateway is given up.
pub const MAX_ATTEMPTS: usize = 9;

/// The receive timeout of the first attempt.
pub const FIRST_TIMEOUT_MS: u64 = 250;

/// The receive timeout of an attempt, counted from 0: each is twice the last.
pub open spec fn timeout_of(attempt: nat) -> nat
    decreases attempt,
{
    if attempt == 0 {
        FIRST_TIMEOUT_MS as nat
    } else {
        2 * timeout_of((attempt - 1) as nat)
    }
}

/// What a receive on the socket gave.
#[derive(Debug, PartialEq, Eq)]
pub enum RecvEvent {
    Datagram(Vec<u8>),
    Failure(RecvError),
}

/// What a receive on the socket gave.
pub enum Received {
    Datagram(Seq<u8>),
    Failure(RecvError),
}

impl View for RecvEvent {
    type V = Received;

    open spec fn view(&self) -> Received {
        match self {
            RecvEvent::Datagram(data) => Received::Datagram(data@),
            RecvEvent::Failure(e) => Received::Failure(*e),
        }
    }
}

/// Where an exchange stands.
#[verifier::ext_equal]
pub struct Progress {
    pub gateway: Ipv4Addr,
    pub request: Seq<u8>,
    pub expected_opcode: u8,
    /// Attempts that ended without a usable datagram.
    pub attempt: nat,
    /// The receive buffer, with what earlier datagrams left in it.
    pub buf: Seq<u8>,
}

/// What to do after a receive.
pub enum Next {
    Wait(Progress),
    Retransmit(Progress),
    Done(Result<Seq<u8>, NatpmpError>),
}

/// An exchange that has just begun.
pub open spec fn started(gateway: Ipv4Addr, request: Seq<u8>, expected_opcode: u8) -> Progress {
    Progress { gateway, request, expected_opcode, attempt: 0, buf: natpmp::blank() }
}

/// The next attempt, if there is one left.
pub open spec fn attempt_failed(p: Progress) -> Next {
    if p.attempt + 1 < MAX_ATTEMPTS {
        Next::Retransmit(Progress { attempt: p.attempt + 1, ..p })
    } else {
        Next::Done(Err(NatpmpError::NoResponse { gateway: p.gateway }))
    }
}

/// What follows from what a receive gave.
///
/// A datagram too short for a header ends the attempt, as silence does; one
/// for another request is skipped; any other fault ends the exchange.
pub open spec fn advanced(p: Progress, r: Received) -> Next {
    match r {
        Received::Datagram(data) => {
            let q = Progress { buf: natpmp::received(p.buf, data), ..p };
            match natpmp::response_fault(data, p.expected_opcode) {
                None => Next::Done(Ok(q.buf)),
                Some(NatpmpError::ResponseTooShort { .. }) => attempt_failed(q),
                Some(NatpmpError::UnexpectedOpcode { .. }) => Next::Wait(q),
                Some(e) => Next::Done(Err(e)),
            }
        },
        Received::Failure(e) => if natpmp::timed_out(e.kind) {
            attempt_failed(p)
        } else if natpmp::unreachable_port(e.kind) {
            Next::Done(Err(NatpmpError::NotNatpmpServer { gateway: p.gateway }))
        } else {
            Next::Done(Err(NatpmpError::Recv { gateway: p.gateway, detail: e.detail }))
        },
    }
}

/// An exchange in progress.
#[derive(Debug)]
pub struct Transaction {
    gateway: Ipv4Addr,
    request: Vec<u8>,
    expected_opcode: u8,
    attempt: usize,
    delay_ms: u64,
    buf: [u8; 16],
}

/// What to do after a receive.
#[derive(Debug)]
pub enum Step {
    /// Receive again, with the same timeout.
    Wait(Transaction),
    /// Send the request again, then receive with the new timeout.
    Retransmit(Transaction),
    /// The exchange is over.
    Done(Result<[u8; 16], NatpmpError>),
}

impl View for Transaction {
    type V = Progress;

    /// The timeout does not show: it is always that of the attempt.
    closed spec fn view(&self) -> Progress {
        Progress {
            gateway: self.gateway,
            request: self.request@,
            expected_opcode: self.expected_opcode,
            attempt: self.attempt as nat,
            buf: self.buf@,
        }
    }
}

impl View for Step {
    type V = Next;

    open spec fn view(&self) -> Next {
        match self {
            Step::Wait(t) => Next::Wait(t@),
            Step::Retransmit(t) => Next::Retransmit(t@),
            Step::Done(Ok(buf)) => Next::Done(Ok(buf@)),
            Step::Done(Err(e)) => Next::Done(Err(*e)),
        }
    }
}

impl Transaction {
    #[verifier::type_invariant]
    spec fn inv(self) -> bool {
        &&& self.attempt < MAX_ATTEMPTS
        &&& self.delay_ms == timeout_of(self.attempt as nat)
    }

    /// Starts an exchange.
    pub fn new(gateway: Ipv4Addr, request: Vec<u8>, expected_opcode: u8) -> (t: Self)
        ensures
            t@ == started(gateway, request@, expected_opcode),
    {
        let buf: [u8; 16] = [0u8; 16];
        assert(buf@ == natpmp::blank());
        Transaction {
            gateway,
            request,
            expected_opcode,
            attempt: 0,
            delay_ms: FIRST_TIMEOUT_MS,
            buf,
        }
    }

    /// The datagram to send at the start and on each retransmission.
    pub fn request(&self) -> (request: &[u8])
        ensures
            request@ == self@.request,
    {
        self.request.as_slice()
    }

    /// How long to wait for a datagram, in milliseconds.
    pub fn timeout_ms(&self) -> (ms: u64)
        ensures
            ms == timeout_of(self@.attempt),
            self@.attempt < MAX_ATTEMPTS,
    {
        proof {
            use_type_invariant(self);
        }
        self.delay_ms
    }

    /// Ends the current attempt.
    fn fail_attempt(self) -> (step: Step)
        ensures
            step@ == attempt_failed(self@),
    {
        proof {
            use_type_invariant(&self);
        }
        if self.attempt + 1 < MAX_ATTEMPTS {
            proof {
                reveal_with_fuel(timeout_of, 10);
            }
            Step::Retransmit(
                Transaction {
                    gateway: self.gateway,
                    request: self.request,
                    expected_opcode: self.expected_opcode,
                    attempt: self.attempt + 1,
                    delay_ms: self.delay_ms * 2,
                    buf: self.buf,
                },
            )
        } else {
            Step::Done(Err(NatpmpError::NoResponse { gateway: self.gateway }))
        }
    }

    /// Takes in what a receive gave and says what to do next.
    pub fn step(self, event: RecvEvent) -> (step: Step)
        ensures
            step@ == advanced(self@, event@),
    {
        proof {
            use_type_invariant(&self);
        }
        match event {
            RecvEvent::Datagram(data) => {
                let buf = receive_into(self.buf, data.as_slice());
                let next = Transaction {
                    gateway: self.gateway,
                    request: self.request,
                    expected_opcode: self.expected_opcode,
                    attempt: self.attempt,
                    delay_ms: self.delay_ms,
                    buf,
                };
                match natpmp::validate_response_bytes(data.as_slice(), self.expected_opcode) {
                    Ok(_) => Step::Done(Ok(buf)),
                    Err(NatpmpError::ResponseTooShort { .. }) => next.fail_attempt(),
                    Err(NatpmpError::UnexpectedOpcode { .. }) => Step::Wait(next),
                    Err(e) => Step::Done(Err(e)),
                }
            },
            RecvEvent::Failure(e) => {
                if is_timeout(&e) {
                    self.fail_attempt()
                } else if matches!(e.kind, ErrorKind::ConnectionRefused | ErrorKind::ConnectionReset) {
                    Step::Done(Err(NatpmpError::NotNatpmpServer { gateway: self.gateway }))
                } else {
                    Step::Done(Err(NatpmpError::Recv { gateway: self.gateway, detail: e.detail }))
                }
            },
        }
    }
}

// ---------------------------------------------------------------------------
// Whole exchanges
// ---------------------------------------------------------------------------

/// Where an exchange stands after a run of receives.  Receives after its end
/// do not happen.
pub open spec fn run(p: Progress, rs: Seq<Received>) -> Next
    decreases rs.len(),
{
    if rs.len() == 0 {
        Next::Wait(p)
    } else {
        match advanced(p, rs[0]) {
            Next::Wait(q) => run(q, rs.drop_first()),
            Next::Retransmit(q) => run(q, rs.drop_first()),
            Next::Done(r) => Next::Done(r),
        }
    }
}

/// How often the request is sent again during a run of receives.
pub open spec fn retransmissions(p: Progress, rs: Seq<Received>) -> nat
    decreases rs.len(),
{
    if rs.len() == 0 {
        0
    } else {
        match advanced(p, rs[0]) {
            Next::Wait(q) => retransmissions(q, rs.drop_first()),
            Next::Retransmit(q) => 1 + retransmissions(q, rs.drop_first()),
            Next::Done(_) => 0,
        }
    }
}

/// The time that the first `n` attempts wait when nothing arrives.
pub open spec fn total_timeout(n: nat) -> nat
    decreases n,
{
    if n == 0 {
        0
    } else {
        total_timeout((n - 1) as nat) + timeout_of((n - 1) as nat)
    }
}

/// Whether a receive gave a response to some other request.
pub open spec fn stale(r: Received, expected_opcode: u8) -> bool {
    r matches Received::Datagram(data) && data.len() >= 4 && data[0] == 0 && data[1]
        != expected_opcode
}

/// Whether a receive gave nothing within the timeout.
pub open spec fn silent(r: Received) -> bool {
    r matches Received::Failure(e) && natpmp::timed_out(e.kind)
}

/// Whether a receive gave too few bytes for a header.
pub open spec fn runt(r: Received) -> bool {
    r matches Received::Datagram(data) && data.len() < 4
}

/// How many of some receives end an attempt.
pub open spec fn failed_attempts(rs: Seq<Received>) -> nat
    decreases rs.len(),
{
    if rs.len() == 0 {
        0
    } else if silent(rs[0]) || runt(rs[0]) {
        1 + failed_attempts(rs.drop_first())
    } else {
        failed_attempts(rs.drop_first())
    }
}

/// Whether two exchanges differ at most in what is left over in their buffers.
pub open spec fn alike(p: Progress, q: Progress) -> bool {
    &&& p.gateway == q.gateway
    &&& p.request == q.request
    &&& p.expected_opcode == q.expected_opcode
    &&& p.attempt == q.attempt
}

/// Whether two outcomes of an exchange that expects `expected_opcode` are the
/// same in everything that its response has.
pub open spec fn same_outcome(x: Next, y: Next, expected_opcode: u8) -> bool {
    match (x, y) {
        (Next::Wait(p), Next::Wait(q)) => alike(p, q),
        (Next::Retransmit(p), Next::Retransmit(q)) => alike(p, q),
        (Next::Done(Ok(b)), Next::Done(Ok(c))) => b.take(
            natpmp::response_len(expected_opcode) as int,
        ) == c.take(natpmp::response_len(expected_opcode) as int),
        (Next::Done(Err(e)), Next::Done(Err(f))) => e == f,
        _ => false,
    }
}

/// The timeouts run 250, 500, ..., 64000 ms, which makes 127.75 s in all.
pub proof fn law_timeout_schedule()
    ensures
        timeout_of(0) == 250,
        forall|n: nat| timeout_of(n + 1) == 2 * #[trigger] timeout_of(n),
        timeout_of((MAX_ATTEMPTS - 1) as nat) == 64000,
        total_timeout(MAX_ATTEMPTS as nat) == 127750,
{
    reveal_with_fuel(timeout_of, 10);
    reveal_with_fuel(total_timeout, 10);
}

proof fn lemma_retransmissions(p: Progress, rs: Seq<Received>)
    requires
        p.attempt < MAX_ATTEMPTS,
    ensures
        p.attempt + retransmissions(p, rs) < MAX_ATTEMPTS,
    decreases rs.len(),
{
    if rs.len() > 0 {
        match advanced(p, rs[0]) {
            Next::Wait(q) => lemma_retransmissions(q, rs.drop_first()),
            Next::Retransmit(q) => lemma_retransmissions(q, rs.drop_first()),
            Next::Done(_) => {},
        }
    }
}

/// Whatever arrives, a request is sent at most nine times.
pub proof fn law_sends_are_bounded(
    gateway: Ipv4Addr,
    request: Seq<u8>,
    expected_opcode: u8,
    rs: Seq<Received>,
)
    ensures
        1 + retransmissions(started(gateway, request, expected_opcode), rs) <= MAX_ATTEMPTS,
{
    lemma_retransmissions(started(gateway, request, expected_opcode), rs);
}

proof fn lemma_silence(p: Progress, rs: Seq<Received>)
    requires
        p.attempt < MAX_ATTEMPTS,
        forall|i: int| 0 <= i < rs.len() ==> silent(#[trigger] rs[i]),
    ensures
        p.attempt + rs.len() >= MAX_ATTEMPTS ==> run(p, rs) == Next::Done(
            Err(NatpmpError::NoResponse { gateway: p.gateway }),
        ) && p.attempt + retransmissions(p, rs) + 1 == MAX_ATTEMPTS,
        p.attempt + rs.len() < MAX_ATTEMPTS ==> run(p, rs) == Next::Wait(
            Progress { attempt: p.attempt + rs.len(), ..p },
        ) && retransmissions(p, rs) == rs.len(),
    decreases rs.len(),
{
    if rs.len() > 0 {
        assert(silent(rs[0]));
        if p.attempt + 1 < MAX_ATTEMPTS {
            let q = Progress { attempt: p.attempt + 1, ..p };
            assert(advanced(p, rs[0]) == Next::Retransmit(q));
            let rest = rs.drop_first();
            assert forall|i: int| 0 <= i < rest.len() implies silent(#[trigger] rest[i]) by {
                assert(rest[i] == rs[i + 1]);
            }
            lemma_silence(q, rest);
        }
    }
}

/// A gateway that never answers is given up after nine timeouts, and not
/// before: each earlier timeout sends the request once more.
pub proof fn law_silence_is_retried(
    gateway: Ipv4Addr,
    request: Seq<u8>,
    expected_opcode: u8,
    rs: Seq<Received>,
)
    requires
        forall|i: int| 0 <= i < rs.len() ==> silent(#[trigger] rs[i]),
    ensures
        rs.len() >= MAX_ATTEMPTS ==> run(started(gateway, request, expected_opcode), rs)
            == Next::Done(Err(NatpmpError::NoResponse { gateway })),
        rs.len() < MAX_ATTEMPTS ==> run(started(gateway, request, expected_opcode), rs) is Wait
            && retransmissions(started(gateway, request, expected_opcode), rs) == rs.len(),
{
    lemma_silence(started(gateway, request, expected_opcode), rs);
}

proof fn lemma_alike(p: Progress, q: Progress, rs: Seq<Received>)
    requires
        alike(p, q),
    ensures
        same_outcome(run(p, rs), run(q, rs), p.expected_opcode),
        retransmissions(p, rs) == retransmissions(q, rs),
    decreases rs.len(),
{
    if rs.len() > 0 {
        let rest = rs.drop_first();
        match (advanced(p, rs[0]), advanced(q, rs[0])) {
            (Next::Wait(p1), Next::Wait(q1)) => lemma_alike(p1, q1, rest),
            (Next::Retransmit(p1), Next::Retransmit(q1)) => lemma_alike(p1, q1, rest),
            (Next::Done(Ok(b)), Next::Done(Ok(c))) => {
                let n = natpmp::response_len(p.expected_opcode) as int;
                assert(b.take(n) == c.take(n));
            },
            _ => {},
        }
    }
}

/// A response to some other request changes nothing: it is not an answer, it
/// is not an error, and it does not cause a retransmission.
pub proof fn law_stale_responses_are_skipped(
    p: Progress,
    before: Seq<Received>,
    r: Received,
    after: Seq<Received>,
)
    requires
        stale(r, p.expected_opcode),
    ensures
        same_outcome(run(p, before + seq![r] + after), run(p, before + after), p.expected_opcode),
        retransmissions(p, before + seq![r] + after) == retransmissions(p, before + after),
    decreases before.len(),
{
    let with = before + seq![r] + after;
    let without = before + after;
    if before.len() == 0 {
        assert(with[0] == r);
        assert(with.drop_first() == after);
        assert(without == after);
        match advanced(p, r) {
            Next::Wait(q) => lemma_alike(q, p, after),
            _ => {},
        }
    } else {
        let rest = before.drop_first();
        assert(with[0] == before[0] && without[0] == before[0]);
        assert(with.drop_first() == rest + seq![r] + after);
        assert(without.drop_first() == rest + after);
        match advanced(p, before[0]) {
            Next::Wait(q) => law_stale_responses_are_skipped(q, rest, r, after),
            Next::Retransmit(q) => law_stale_responses_are_skipped(q, rest, r, after),
            Next::Done(_) => {},
        }
    }
}

/// A gateway that answers in time is heard: after any number of responses to
/// other requests and fewer than nine timeouts or datagrams without a header,
/// a response that passes every check is the reply, and the request was sent
/// once more for each timeout or such datagram.
pub proof fn law_answer_is_heard(p: Progress, rs: Seq<Received>, data: Seq<u8>)
    requires
        forall|i: int|
            0 <= i < rs.len() ==> stale(#[trigger] rs[i], p.expected_opcode) || silent(rs[i])
                || runt(rs[i]),
        p.attempt + failed_attempts(rs) < MAX_ATTEMPTS,
        natpmp::response_fault(data, p.expected_opcode) is None,
    ensures
        run(p, rs.push(Received::Datagram(data))) matches Next::Done(Ok(reply)) && reply.len() == 16
            && reply.take(natpmp::response_len(p.expected_opcode) as int) == data.take(
            natpmp::response_len(p.expected_opcode) as int,
        ),
        retransmissions(p, rs.push(Received::Datagram(data))) == failed_attempts(rs),
    decreases rs.len(),
{
    let all = rs.push(Received::Datagram(data));
    if rs.len() == 0 {
        let n = natpmp::response_len(p.expected_opcode) as int;
        assert(all[0] == Received::Datagram(data));
        assert(natpmp::received(p.buf, data).take(n) == data.take(n));
    } else {
        let rest = rs.drop_first();
        assert(all[0] == rs[0]);
        assert(all.drop_first() == rest.push(Received::Datagram(data)));
        assert(stale(rs[0], p.expected_opcode) || silent(rs[0]) || runt(rs[0]));
        assert forall|i: int| 0 <= i < rest.len() implies stale(
            #[trigger] rest[i],
            p.expected_opcode,
        ) || silent(rest[i]) || runt(rest[i]) by {
            assert(rest[i] == rs[i + 1]);
        }
        match advanced(p, rs[0]) {
            Next::Wait(q) => law_answer_is_heard(q, rest, data),
            Next::Retransmit(q) => law_answer_is_heard(q, rest, data),
            Next::Done(_) => {},
        }
    }
}

/// An exchange treats a datagram as a check of that datagram alone does: it
/// succeeds on the same datagrams and, but for the two faults on which it goes
/// on, fails with the same errors.
pub proof fn law_exchange_mirrors_validation(p: Progress, data: Seq<u8>)
    ensures
        ({
            let fault = natpmp::response_fault(data, p.expected_opcode);
            let next = advanced(p, Received::Datagram(data));
            &&& fault is None <==> next is Done && next->Done_0 is Ok
            &&& fault matches Some(e) ==> (if data.len() < 4 {
                next == attempt_failed(
                    Progress { buf: natpmp::received(p.buf, data), ..p },
                )
            } else if stale(Received::Datagram(data), p.expected_opcode) {
                next is Wait
            } else {
                next == Next::Done(Err(e))
            })
        }),
{
}

/// The reply that an exchange ends with is a datagram that passes every check.
pub proof fn law_reply_is_a_checked_datagram(p: Progress, rs: Seq<Received>)
    requires
        run(p, rs) is Done,
        run(p, rs)->Done_0 is Ok,
    ensures
        exists|i: int, data: Seq<u8>|
            0 <= i < rs.len() && #[trigger] rs[i] == Received::Datagram(data)
                && #[trigger] natpmp::response_fault(data, p.expected_opcode) is None
                && run(p, rs)->Done_0->Ok_0.take(
                natpmp::response_len(p.expected_opcode) as int,
            ) == data.take(natpmp::response_len(p.expected_opcode) as int),
    decreases rs.len(),
{
    let n = natpmp::response_len(p.expected_opcode) as int;
    let rest = rs.drop_first();
    match advanced(p, rs[0]) {
        Next::Done(_) => {
            let data = rs[0]->Datagram_0;
            assert(rs[0] == Received::Datagram(data));
            assert(natpmp::response_fault(data, p.expected_opcode) is None);
            assert(natpmp::received(p.buf, data).take(n) == data.take(n));
        },
        Next::Wait(q) => {
            law_reply_is_a_checked_datagram(q, rest);
            lemma_reply_position(p, q, rs);
        },
        Next::Retransmit(q) => {
            law_reply_is_a_checked_datagram(q, rest);
            lemma_reply_position(p, q, rs);
        },
    }
}

/// A datagram that answers the rest of an exchange answers all of it.
proof fn lemma_reply_position(p: Progress, q: Progress, rs: Seq<Received>)
    requires
        rs.len() > 0,
        q.expected_opcode == p.expected_opcode,
        run(p, rs) == run(q, rs.drop_first()),
        exists|i: int, data: Seq<u8>|
            0 <= i < rs.drop_first().len() && #[trigger] rs.drop_first()[i] == Received::Datagram(
                data,
            ) && #[trigger] natpmp::response_fault(data, q.expected_opcode) is None && run(
                q,
                rs.drop_first(),
            )->Done_0->Ok_0.take(natpmp::response_len(q.expected_opcode) as int) == data.take(
                natpmp::response_len(q.expected_opcode) as int,
            ),
    ensures
        exists|i: int, data: Seq<u8>|
            0 <= i < rs.len() && #[trigger] rs[i] == Received::Datagram(data)
                && #[trigger] natpmp::response_fault(data, p.expected_opcode) is None
                && run(p, rs)->Done_0->Ok_0.take(
                natpmp::response_len(p.expected_opcode) as int,
            ) == data.take(natpmp::response_len(p.expected_opcode) as int),
{
    let (i, data) = choose|i: int, data: Seq<u8>|
        0 <= i < rs.drop_first().len() && #[trigger] rs.drop_first()[i] == Received::Datagram(data)
            && #[trigger] natpmp::response_fault(data, q.expected_opcode) is None && run(
            q,
            rs.drop_first(),
        )->Done_0->Ok_0.take(natpmp::response_len(q.expected_opcode) as int) == data.take(
            natpmp::response_len(q.expected_opcode) as int,
        );
    assert(rs[i + 1] == rs.drop_first()[i]);
    assert(rs[i + 1] == Received::Datagram(data));
    assert(natpmp::response_fault(data, p.expected_opcode) is None);
}

/// Any result code other than 0, named or not, ends the exchange with an error
/// that carries it.
pub proof fn law_result_codes_are_errors(p: Progress, data: Seq<u8>)
    requires
        data.len() >= 4,
        data[0] == 0,
        data[1] == p.expected_opcode,
        natpmp::be16(data[2], data[3]) != 0,
    ensures
        advanced(p, Received::Datagram(data)) == Next::Done(
            Err(NatpmpError::Server { code: natpmp::be16(data[2], data[3]) }),
        ),
{
}

/// A gateway on which nothing listens ends the exchange at once.
pub proof fn law_unreachable_port_is_not_retried(p: Progress, e: RecvError, rs: Seq<Received>)
    requires
        natpmp::unreachable_port(e.kind),
    ensures
        run(p, seq![Received::Failure(e)] + rs) == Next::Done(
            Err(NatpmpError::NotNatpmpServer { gateway: p.gateway }),
        ),
        retransmissions(p, seq![Received::Failure(e)] + rs) == 0,
{
    assert((seq![Received::Failure(e)] + rs)[0] == Received::Failure(e));
}

/// A public-address exchange that gets a successful response of twelve bytes
/// or more reads its address verbatim from bytes 8 to 11.
pub proof fn law_public_address_is_verbatim(p: Progress, data: Seq<u8>)
    requires
        p.expected_opcode == natpmp::OP_PUBLIC_ADDRESS,
        data.len() >= 12,
        data[0] == 0,
        data[1] == natpmp::OP_PUBLIC_ADDRESS,
        data[2] == 0,
        data[3] == 0,
    ensures
        advanced(p, Received::Datagram(data)) matches Next::Done(Ok(reply)) && natpmp::address_in(
            reply,
        ) == (Ipv4Addr { a: data[8], b: data[9], c: data[10], d: data[11] }),
{
}

/// A mapping exchange that gets a successful response of sixteen bytes or more
/// reads the ports and the lifetime verbatim from bytes 8 to 15.
pub proof fn law_mapping_is_verbatim(
    p: Progress,
    data: Seq<u8>,
    private_port: u16,
    public_port: u16,
    lifetime: u32,
)
    requires
        p.expected_opcode != natpmp::OP_PUBLIC_ADDRESS,
        data.len() >= 16,
        data.subrange(0, 4) == seq![0u8, p.expected_opcode, 0u8, 0u8],
        data.subrange(8, 16) == natpmp::be16_bytes(private_port) + natpmp::be16_bytes(public_port)
            + natpmp::be32_bytes(lifetime),
    ensures
        advanced(p, Received::Datagram(data)) matches Next::Done(Ok(reply)) && natpmp::mapping_in(
            reply,
        ) == (natpmp::PortMapping { private_port, public_port, lifetime }),
{
    let head = data.subrange(0, 4);
    let tail = data.subrange(8, 16);
    assert(data[0] == head[0] && data[1] == head[1] && data[2] == head[2] && data[3] == head[3]);
    assert forall|i: int| 8 <= i < 16 implies data[i] == tail[i - 8] by {}
    assert(data[8] == tail[0] && data[9] == tail[1] && data[10] == tail[2] && data[11] == tail[3]);
    assert(data[12] == tail[4] && data[13] == tail[5] && data[14] == tail[6] && data[15]
        == tail[7]);
    natpmp::lemma_be16_round_trip(private_port);
    natpmp::lemma_be16_round_trip(public_port);
    natpmp::lemma_be32_round_trip(lifetime);
}

/// Asking for the public address gives the address that the gateway answers
/// with, even if the answer comes after responses to other requests and after
/// fewer than nine timeouts or datagrams without a header.
pub proof fn law_public_address_is_returned(gateway: Ipv4Addr, rs: Seq<Received>, data: Seq<u8>)
    requires
        forall|i: int|
            0 <= i < rs.len() ==> stale(#[trigger] rs[i], natpmp::OP_PUBLIC_ADDRESS) || silent(
                rs[i],
            ) || runt(rs[i]),
        failed_attempts(rs) < MAX_ATTEMPTS,
        data.len() >= 12,
        data.subrange(0, 4) == seq![0u8, natpmp::OP_PUBLIC_ADDRESS, 0u8, 0u8],
    ensures
        run(
            started(gateway, natpmp::public_address_request_bytes(), natpmp::OP_PUBLIC_ADDRESS),
            rs.push(Received::Datagram(data)),
        ) matches Next::Done(Ok(reply)) && natpmp::address_in(reply) == (Ipv4Addr {
            a: data[8],
            b: data[9],
            c: data[10],
            d: data[11],
        }),
{
    let p = started(gateway, natpmp::public_address_request_bytes(), natpmp::OP_PUBLIC_ADDRESS);
    let head = data.subrange(0, 4);
    assert(data[0] == head[0] && data[1] == head[1] && data[2] == head[2] && data[3] == head[3]);
    law_answer_is_heard(p, rs, data);
    let reply = run(p, rs.push(Received::Datagram(data)))->Done_0->Ok_0;
    assert forall|i: int| 8 <= i < 12 implies reply[i] == data[i] by {
        assert(reply.take(12)[i] == data.take(12)[i]);
    }
}

/// Asking for a mapping gives the ports and the lifetime that the gateway
/// answers with, even if the answer comes after responses to other requests
/// and after fewer than nine timeouts or datagrams without a header.
pub proof fn law_mapping_is_returned(
    gateway: Ipv4Addr,
    private_port: u16,
    protocol: natpmp::Protocol,
    lifetime: u32,
    rs: Seq<Received>,
    data: Seq<u8>,
    granted: natpmp::PortMapping,
)
    requires
        forall|i: int|
            0 <= i < rs.len() ==> stale(#[trigger] rs[i], protocol.response_op()) || silent(rs[i])
                || runt(rs[i]),
        failed_attempts(rs) < MAX_ATTEMPTS,
        data.len() >= 16,
        data.subrange(0, 4) == seq![0u8, protocol.response_op(), 0u8, 0u8],
        data.subrange(8, 16) == natpmp::be16_bytes(granted.private_port) + natpmp::be16_bytes(
            granted.public_port,
        ) + natpmp::be32_bytes(granted.lifetime),
    ensures
        run(
            started(
                gateway,
                natpmp::map_request_bytes(private_port, protocol, lifetime),
                protocol.response_op(),
            ),
            rs.push(Received::Datagram(data)),
        ) matches Next::Done(Ok(reply)) && natpmp::mapping_in(reply) == granted,
{
    let p = started(
        gateway,
        natpmp::map_request_bytes(private_port, protocol, lifetime),
        protocol.response_op(),
    );
    let head = data.subrange(0, 4);
    assert(data[0] == head[0] && data[1] == head[1] && data[2] == head[2] && data[3] == head[3]);
    law_mapping_is_verbatim(
        p,
        data,
        granted.private_port,
        granted.public_port,
        granted.lifetime,
    );
    law_answer_is_heard(p, rs, data);
    let reply = run(p, rs.push(Received::Datagram(data)))->Done_0->Ok_0;
    assert forall|i: int| 8 <= i < 16 implies reply[i] == data[i] by {
        assert(reply.take(16)[i] == data.take(16)[i]);
    }
}

/// An exchange starts with its first attempt and an empty buffer.
pub proof fn law_exchange_starts_afresh(gateway: Ipv4Addr, request: Seq<u8>, expected_opcode: u8)
    ensures
        ({
            let p = started(gateway, request, expected_opcode);
            &&& p.gateway == gateway
            &&& p.request == request
            &&& p.expected_opcode == expected_opcode
            &&& p.attempt == 0
            &&& p.buf == Seq::new(16, |i: int| 0u8)
        }),
{
}

/// Nothing that is received changes the request, the gateway or the opcode that
/// is expected.  A retransmission is one more attempt, waiting is none.
pub proof fn law_exchange_keeps_its_request(p: Progress, r: Received)
    ensures
        advanced(p, r) matches Next::Wait(q) ==> q.request == p.request && q.gateway == p.gateway
            && q.expected_opcode == p.expected_opcode && q.attempt == p.attempt,
        advanced(p, r) matches Next::Retransmit(q) ==> q.request == p.request && q.gateway
            == p.gateway && q.expected_opcode == p.expected_opcode && q.attempt == p.attempt + 1,
{
}

/// A datagram of four bytes or more is judged by its bytes alone: another
/// version, result code or length than it should have ends the exchange with an
/// error that says so, another opcode is waited out, and a datagram with none of
/// these is the reply.
pub proof fn law_datagrams_are_judged_by_their_bytes(p: Progress, data: Seq<u8>)
    requires
        4 <= data.len() <= usize::MAX,
    ensures
        ({
            let next = advanced(p, Received::Datagram(data));
            let op = p.expected_opcode;
            let need: int = if op == 128 {
                12
            } else {
                16
            };
            if data[0] != 0 {
                next matches Next::Done(Err(NatpmpError::UnsupportedVersion { version })) && version
                    == data[0]
            } else if data[1] != op {
                next is Wait
            } else if data[2] != 0 || data[3] != 0 {
                next matches Next::Done(Err(NatpmpError::Server { code })) && code == 256 * data[2]
                    + data[3]
            } else if data.len() < need {
                next matches Next::Done(Err(NatpmpError::Truncated { got, need: n })) && got
                    == data.len() && n == need
            } else {
                next matches Next::Done(Ok(reply)) && reply.len() == 16 && forall|i: int|
                    0 <= i < need ==> #[trigger] reply[i] == data[i]
            }
        }),
{
}

/// A receive that gives nothing in time, or fewer than four bytes, sends the
/// request again; the ninth such receive gives the gateway up.
pub proof fn law_failed_attempts_are_repeated(p: Progress, r: Received)
    requires
        match r {
            Received::Datagram(data) => data.len() < 4,
            Received::Failure(e) => e.kind is WouldBlock || e.kind is TimedOut,
        },
    ensures
        p.attempt < 8 ==> advanced(p, r) is Retransmit,
        p.attempt >= 8 ==> advanced(p, r) == Next::Done(
            Err(NatpmpError::NoResponse { gateway: p.gateway }),
        ),
{
}

/// A receive that fails for any other reason ends the exchange at once: a port
/// on which nothing listens is told from a failure of the system, which is
/// passed on.
pub proof fn law_failed_receives_end_the_exchange(p: Progress, e: RecvError)
    ensures
        e.kind is ConnectionRefused || e.kind is ConnectionReset ==> advanced(
            p,
            Received::Failure(e),
        ) == Next::Done(Err(NatpmpError::NotNatpmpServer { gateway: p.gateway })),
        e.kind is BrokenPipe || e.kind is Other ==> advanced(p, Received::Failure(e)) == Next::Done(
            Err((NatpmpError::Recv { gateway: p.gateway, detail: e.detail })),
        ),
{
}

/// Nine timeouts or datagrams without a header, in any mixture and with any
/// number of responses to other requests between them, give the gateway up.
pub proof fn law_nine_failed_attempts_are_enough(p: Progress, rs: Seq<Received>)
    requires
        p.attempt < 9,
        forall|i: int|
            0 <= i < rs.len() ==> stale(#[trigger] rs[i], p.expected_opcode) || silent(rs[i])
                || runt(rs[i]),
        p.attempt + failed_attempts(rs) >= 9,
    ensures
        run(p, rs) == Next::Done(Err(NatpmpError::NoResponse { gateway: p.gateway })),
        p.attempt + retransmissions(p, rs) == 8,
    decreases rs.len(),
{
    let rest = rs.drop_first();
    assert(stale(rs[0], p.expected_opcode) || silent(rs[0]) || runt(rs[0]));
    assert forall|i: int| 0 <= i < rest.len() implies stale(#[trigger] rest[i], p.expected_opcode)
        || silent(rest[i]) || runt(rest[i]) by {
        assert(rest[i] == rs[i + 1]);
    }
    match advanced(p, rs[0]) {
        Next::Wait(q) => law_nine_failed_attempts_are_enough(q, rest),
        Next::Retransmit(q) => law_nine_failed_attempts_are_enough(q, rest),
        Next::Done(_) => {},
    }
}

} // verus!
