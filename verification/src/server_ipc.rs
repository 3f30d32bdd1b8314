//! Server side of the IPC connection: packet framing, the handshake check and the
//! state machine that reads length-prefixed packets from a non-blocking stream.

use vstd::prelude::*;
use bytes::BufMut;
use bytes::BytesMut;
use crate::ipc::{CONNECTION_MAGIC, PROTOCOL_VERSION};
use crate::text::{chars_of, is_white_space, is_whitespace, push_char, string_from_chars};

verus! {

#[verifier::external_type_specification]
#[verifier::external_body]
pub struct ExBytesMut(BytesMut);

/// The bytes a `BytesMut` holds.
pub uninterp spec fn bytes_mut_contents(b: BytesMut) -> Seq<u8>;

/// Big-endian encoding of a `u32`.
pub open spec fn be_bytes_u32(n: u32) -> Seq<u8> {
    seq![
        (n / 0x100_0000) as u8,
        ((n / 0x1_0000) % 0x100) as u8,
        ((n / 0x100) % 0x100) as u8,
        (n % 0x100) as u8,
    ]
}

/// `BytesMut::new`: an empty buffer.
#[verifier::external_body]
fn bytes_mut_new() -> (b: BytesMut)
    ensures
        bytes_mut_contents(b) == Seq::<u8>::empty(),
{
    BytesMut::new()
}

/// `BufMut::put_u32` on a `BytesMut`: appends the four big-endian bytes of `n`
/// (it panics only when the length would pass `isize::MAX`).
#[verifier::external_body]
fn bytes_mut_put_u32(b: &mut BytesMut, n: u32)
    requires
        bytes_mut_contents(*old(b)).len() + 4 <= isize::MAX,
    ensures
        bytes_mut_contents(*final(b)) == bytes_mut_contents(*old(b)) + be_bytes_u32(n),
{
    b.put_u32(n)
}

/// `BufMut::put_slice` on a `BytesMut`: appends `src` (it panics only when the
/// length would pass `isize::MAX`).
#[verifier::external_body]
fn bytes_mut_put_slice(b: &mut BytesMut, src: &[u8])
    requires
        bytes_mut_contents(*old(b)).len() + src@.len() <= isize::MAX,
    ensures
        bytes_mut_contents(*final(b)) == bytes_mut_contents(*old(b)) + src@,
{
    b.put_slice(src)
}

/// `Vec::<u8>::from(BytesMut)`: the same bytes in a vector.
#[verifier::external_body]
fn bytes_mut_into_vec(b: BytesMut) -> (v: Vec<u8>)
    ensures
        v@ == bytes_mut_contents(b),
{
    Vec::from(b)
}

/// The size field of a packet: the payload length, truncated to 32 bits as the
/// sender writes it.
pub open spec fn size_field(len: nat) -> u32 {
    (len % 0x1_0000_0000) as u32
}

/// A packet on the wire: the payload size as a big-endian `u32`, then the payload.
pub fn encode_packet(data: &[u8]) -> (out: Vec<u8>)
    requires
        data@.len() + 4 <= isize::MAX,
    ensures
        out@ == be_bytes_u32(size_field(data@.len())) + data@,
{
    let mut bytes = bytes_mut_new();
    let len64 = data.len() as u64;
    let size: u32 = (len64 % 0x1_0000_0000u64) as u32;
    bytes_mut_put_u32(&mut bytes, size);
    bytes_mut_put_slice(&mut bytes, data);
    proof {
        assert(bytes_mut_contents(bytes) =~= be_bytes_u32(size_field(data@.len())) + data@);
    }
    bytes_mut_into_vec(bytes)
}

/// The value of four big-endian bytes.
pub open spec fn be_value(h: Seq<u8>) -> int {
    h[0] * 0x100_0000 + h[1] * 0x1_0000 + h[2] * 0x100 + h[3]
}

/// Reads the payload size from a packet header.
pub fn decode_packet_size(header: &[u8; 4]) -> (n: u32)
    ensures
        n == be_value(header@),
{
    let b0 = header[0] as u32;
    let b1 = header[1] as u32;
    let b2 = header[2] as u32;
    let b3 = header[3] as u32;
    b0 * 0x100_0000 + b1 * 0x1_0000 + b2 * 0x100 + b3
}

/// Decoding a header gives back the size that was encoded.
pub proof fn law_header_round_trip(n: u32)
    ensures
        be_value(be_bytes_u32(n)) == n,
{
    let h = be_bytes_u32(n);
    assert(h[0] == n / 0x100_0000);
    assert(h[1] == (n / 0x1_0000) % 0x100);
    assert(h[2] == (n / 0x100) % 0x100);
    assert(h[3] == n % 0x100);
    assert((n / 0x100_0000) * 0x100_0000 + ((n / 0x1_0000) % 0x100) * 0x1_0000
        + ((n / 0x100) % 0x100) * 0x100 + n % 0x100 == n) by (nonlinear_arith);
}

/// A framed packet reads back as it was written: its first four bytes decode
/// to the payload's length (for payloads under 4 GiB) and the payload follows.
pub proof fn law_framing_round_trip(data: Seq<u8>)
    requires
        data.len() < 0x1_0000_0000,
    ensures
        ({
            let framed = be_bytes_u32(size_field(data.len())) + data;
            &&& be_value(framed.take(4)) == data.len()
            &&& framed.skip(4) == data
        }),
{
    let framed = be_bytes_u32(size_field(data.len())) + data;
    assert(size_field(data.len()) == data.len());
    assert(framed.take(4) =~= be_bytes_u32(size_field(data.len())));
    law_header_round_trip(size_field(data.len()));
    assert(framed.skip(4) =~= data);
}

/// A read of `expected_size` bytes succeeded: it read something, and exactly that much.
/// `res` is the byte count of the read, or `None` when it failed.
pub fn read_check(expected_size: u32, res: Option<usize>) -> (ok: bool)
    ensures
        ok == (res matches Some(count) && count != 0 && count as u32 == expected_size),
{
    match res {
        Some(count) => {
            if count == 0 {
                return false;
            }
            #[verifier::truncate]
            let c = count as u32;
            c == expected_size
        },
        None => false,
    }
}

/// Largest payload a client may announce (128 KiB).
pub const PACKET_SIZE_LIMIT: u32 = 131072;

/// Length in bytes of the UTF-8 encoding of `s`, as `str::len` reports it.
pub open spec fn utf8_len(s: Seq<char>) -> usize {
    vstd::utf8::encode_utf8(s).len() as usize
}

/// Client data of a handshake.
pub struct ClientHandshake {
    pub protocol_version: u32,
    pub magic: u64,
    pub client_name: String,
}

/// Who is on the other end of an authenticated connection.
pub struct AuthInfo {
    pub client_name: String,
    pub protocol_version: u32,
}

/// Why a handshake is refused.
#[derive(PartialEq, Eq, Structural, Debug, Clone, Copy)]
pub enum HandshakeError {
    AlreadyAuthenticated,
    UnsupportedProtocolVersion(u32),
    InvalidMagic,
    ClientNameEmpty,
    ClientNameTooLong,
}

/// The outcome of a handshake, checked in this order: a connection authenticates
/// once, with the supported protocol version and magic, and a client name of
/// 1 to 31 bytes.
pub open spec fn handshake_outcome(authenticated: bool, version: u32, magic: u64, name_bytes: usize) -> Result<(), HandshakeError> {
    if authenticated {
        Err(HandshakeError::AlreadyAuthenticated)
    } else if version != PROTOCOL_VERSION {
        Err(HandshakeError::UnsupportedProtocolVersion(version))
    } else if magic != CONNECTION_MAGIC {
        Err(HandshakeError::InvalidMagic)
    } else if name_bytes == 0 {
        Err(HandshakeError::ClientNameEmpty)
    } else if name_bytes >= 32 {
        Err(HandshakeError::ClientNameTooLong)
    } else {
        Ok(())
    }
}

/// Checks a handshake against the connection's state and gives the identity it establishes.
pub fn process_handshake(auth: &Option<AuthInfo>, handshake: &ClientHandshake) -> (r: Result<AuthInfo, HandshakeError>)
    ensures
        r is Ok <==> handshake_outcome(auth is Some, handshake.protocol_version, handshake.magic,
            utf8_len(handshake.client_name@)) is Ok,
        r matches Err(e) ==> handshake_outcome(auth is Some, handshake.protocol_version, handshake.magic,
            utf8_len(handshake.client_name@)) == Err::<(), HandshakeError>(e),
        r matches Ok(info) ==> info.client_name@ == handshake.client_name@
            && info.protocol_version == handshake.protocol_version,
{
    if auth.is_some() {
        return Err(HandshakeError::AlreadyAuthenticated);
    }
    if handshake.protocol_version != PROTOCOL_VERSION {
        return Err(HandshakeError::UnsupportedProtocolVersion(handshake.protocol_version));
    }
    if handshake.magic != CONNECTION_MAGIC {
        return Err(HandshakeError::InvalidMagic);
    }
    let len = handshake.client_name.as_str().len();
    if len == 0 {
        return Err(HandshakeError::ClientNameEmpty);
    }
    if len >= 32 {
        return Err(HandshakeError::ClientNameTooLong);
    }
    Ok(AuthInfo { client_name: handshake.client_name.clone(), protocol_version: handshake.protocol_version })
}

/// Where a connection is in reading one packet.
#[derive(PartialEq, Eq, Structural, Debug, Clone, Copy)]
pub enum ReaderPhase {
    /// Between packets.
    Idle,
    /// Reading the payload announced in an earlier tick.
    PendingPayload(u32),
    /// Processing that payload.
    ProcessPending,
    /// Reading the 4-byte header.
    Header,
    /// Reading the payload the header announced.
    Payload(u32),
    /// Processing that payload.
    Process,
}

/// What the stream did since the last action.
#[derive(Debug, Clone, Copy)]
pub enum ReaderEvent {
    /// Start reading a packet.
    Start,
    /// A payload read finished; whether `read_check` accepted it.
    PayloadRead(bool),
    /// The header read finished: the header if `read_check` accepted 4 bytes.
    HeaderRead(Option<[u8; 4]>),
    /// The payload was processed; false when it was invalid.
    Processed(bool),
}

/// Why the server closes a connection.
#[derive(PartialEq, Eq, Structural, Debug, Clone, Copy)]
pub enum KillReason {
    /// The payload could not be processed; the processing error is the message.
    InvalidPayload,
    /// The header announced a payload above the limit.
    PacketTooBig,
}

/// What to do next.
#[derive(PartialEq, Eq, Structural, Debug, Clone, Copy)]
pub enum ReaderAction {
    ReadPayload(u32),
    ReadHeader,
    ProcessPayload,
    /// Send the reason to the client, close the connection and stop reading.
    Kill(KillReason),
    /// Stop this read; `true` when a packet was read and processed, so another may follow.
    Finish(bool),
}

/// Reading state of one connection.
#[derive(PartialEq, Eq, Structural, Debug, Clone, Copy)]
pub struct PacketReader {
    pub alive: bool,
    /// Size of a payload whose header was read but whose data was not there yet.
    pub next_packet: Option<u32>,
    pub phase: ReaderPhase,
}

/// The events that can follow the action last taken in `phase`.
pub open spec fn accepts(phase: ReaderPhase, ev: ReaderEvent) -> bool {
    match phase {
        ReaderPhase::Idle => ev is Start,
        ReaderPhase::PendingPayload(_) => ev is PayloadRead,
        ReaderPhase::ProcessPending => ev is Processed,
        ReaderPhase::Header => ev is HeaderRead,
        ReaderPhase::Payload(_) => ev is PayloadRead,
        ReaderPhase::Process => ev is Processed,
    }
}

/// One step of reading a packet: the next state and action.
pub open spec fn reader_step(r: PacketReader, ev: ReaderEvent) -> (PacketReader, ReaderAction) {
    let idle = PacketReader { phase: ReaderPhase::Idle, ..r };
    let killed = PacketReader { alive: false, phase: ReaderPhase::Idle, ..r };
    match (r.phase, ev) {
        (ReaderPhase::Idle, ReaderEvent::Start) => match r.next_packet {
            Some(n) => (PacketReader { phase: ReaderPhase::PendingPayload(n), ..r }, ReaderAction::ReadPayload(n)),
            None => (PacketReader { phase: ReaderPhase::Header, ..r }, ReaderAction::ReadHeader),
        },
        (ReaderPhase::PendingPayload(_), ReaderEvent::PayloadRead(ok)) => if ok {
            (PacketReader { phase: ReaderPhase::ProcessPending, ..r }, ReaderAction::ProcessPayload)
        } else {
            (idle, ReaderAction::Finish(false))
        },
        (ReaderPhase::ProcessPending, ReaderEvent::Processed(ok)) => if ok {
            (PacketReader { next_packet: None, phase: ReaderPhase::Header, ..r }, ReaderAction::ReadHeader)
        } else {
            (killed, ReaderAction::Kill(KillReason::InvalidPayload))
        },
        (ReaderPhase::Header, ReaderEvent::HeaderRead(h)) => match h {
            None => (idle, ReaderAction::Finish(false)),
            Some(bytes) => {
                let size = be_value(bytes@) as u32;
                if size > PACKET_SIZE_LIMIT {
                    (killed, ReaderAction::Kill(KillReason::PacketTooBig))
                } else {
                    (PacketReader { phase: ReaderPhase::Payload(size), ..r }, ReaderAction::ReadPayload(size))
                }
            },
        },
        (ReaderPhase::Payload(n), ReaderEvent::PayloadRead(ok)) => if ok {
            (PacketReader { phase: ReaderPhase::Process, ..r }, ReaderAction::ProcessPayload)
        } else {
            (PacketReader { next_packet: Some(n), phase: ReaderPhase::Idle, ..r }, ReaderAction::Finish(false))
        },
        (ReaderPhase::Process, ReaderEvent::Processed(ok)) => if ok {
            (idle, ReaderAction::Finish(true))
        } else {
            (killed, ReaderAction::Kill(KillReason::InvalidPayload))
        },
        _ => (r, ReaderAction::Finish(false)),
    }
}

impl PacketReader {
    /// Sizes the reader holds or reads are within the limit.
    pub open spec fn wf(&self) -> bool {
        &&& (self.next_packet matches Some(n) ==> n <= PACKET_SIZE_LIMIT)
        &&& (self.phase matches ReaderPhase::PendingPayload(n) ==> n <= PACKET_SIZE_LIMIT)
        &&& (self.phase matches ReaderPhase::Payload(n) ==> n <= PACKET_SIZE_LIMIT)
    }

    pub fn new() -> (r: PacketReader)
        ensures
            r.wf(),
            r.alive,
            r.next_packet is None,
            r.phase == ReaderPhase::Idle,
    {
        PacketReader { alive: true, next_packet: None, phase: ReaderPhase::Idle }
    }

    /// Advances the reader by one event (the reading and processing are the caller's).
    pub fn step(&mut self, ev: ReaderEvent) -> (a: ReaderAction)
        requires
            old(self).wf(),
            accepts(old(self).phase, ev),
        ensures
            (*final(self), a) == reader_step(*old(self), ev),
            final(self).wf(),
            a matches ReaderAction::ReadPayload(n) ==> n <= PACKET_SIZE_LIMIT,
            a is Kill ==> !final(self).alive,
    {
        match (self.phase, ev) {
            (ReaderPhase::Idle, ReaderEvent::Start) => match self.next_packet {
                Some(n) => {
                    self.phase = ReaderPhase::PendingPayload(n);
                    ReaderAction::ReadPayload(n)
                },
                None => {
                    self.phase = ReaderPhase::Header;
                    ReaderAction::ReadHeader
                },
            },
            (ReaderPhase::PendingPayload(_), ReaderEvent::PayloadRead(ok)) => {
                if ok {
                    self.phase = ReaderPhase::ProcessPending;
                    ReaderAction::ProcessPayload
                } else {
                    self.phase = ReaderPhase::Idle;
                    ReaderAction::Finish(false)
                }
            },
            (ReaderPhase::ProcessPending, ReaderEvent::Processed(ok)) => {
                if ok {
                    self.next_packet = None;
                    self.phase = ReaderPhase::Header;
                    ReaderAction::ReadHeader
                } else {
                    self.alive = false;
                    self.phase = ReaderPhase::Idle;
                    ReaderAction::Kill(KillReason::InvalidPayload)
                }
            },
            (ReaderPhase::Header, ReaderEvent::HeaderRead(h)) => match h {
                None => {
                    self.phase = ReaderPhase::Idle;
                    ReaderAction::Finish(false)
                },
                Some(bytes) => {
                    let size = decode_packet_size(&bytes);
                    if size > PACKET_SIZE_LIMIT {
                        self.alive = false;
                        self.phase = ReaderPhase::Idle;
                        ReaderAction::Kill(KillReason::PacketTooBig)
                    } else {
                        self.phase = ReaderPhase::Payload(size);
                        ReaderAction::ReadPayload(size)
                    }
                },
            },
            (ReaderPhase::Payload(n), ReaderEvent::PayloadRead(ok)) => {
                if ok {
                    self.phase = ReaderPhase::Process;
                    ReaderAction::ProcessPayload
                } else {
                    self.next_packet = Some(n);
                    self.phase = ReaderPhase::Idle;
                    ReaderAction::Finish(false)
                }
            },
            (ReaderPhase::Process, ReaderEvent::Processed(ok)) => {
                if ok {
                    self.phase = ReaderPhase::Idle;
                    ReaderAction::Finish(true)
                } else {
                    self.alive = false;
                    self.phase = ReaderPhase::Idle;
                    ReaderAction::Kill(KillReason::InvalidPayload)
                }
            },
            _ => ReaderAction::Finish(false),
        }
    }
}

/// The reader holds a pending size exactly while a payload announced earlier
/// is still to be read or processed: between packets it may hold one, while
/// reading that payload it holds its size, and from a header onwards it holds
/// none.
pub open spec fn pending_consistent(r: PacketReader) -> bool {
    match r.phase {
        ReaderPhase::Idle => true,
        ReaderPhase::PendingPayload(n) => r.next_packet == Some(n),
        ReaderPhase::ProcessPending => r.next_packet is Some,
        ReaderPhase::Header | ReaderPhase::Payload(_) | ReaderPhase::Process => r.next_packet is None,
    }
}

/// Every step keeps the pending size consistent with where the reader is: a
/// payload held over from an earlier tick is forgotten once it has been
/// processed, and a header is never read while a size is pending.
pub proof fn law_pending_size_stays_consistent(r: PacketReader, ev: ReaderEvent)
    requires
        pending_consistent(r),
    ensures
        pending_consistent(reader_step(r, ev).0),
        reader_step(r, ev).1 == ReaderAction::ReadHeader ==> reader_step(r, ev).0.next_packet is None,
{
}

/// After a packet was read and processed, the next read starts with a header.
pub proof fn law_completed_packet_then_header(r: PacketReader, ev: ReaderEvent)
    requires
        pending_consistent(r),
        reader_step(r, ev).1 == ReaderAction::Finish(true),
    ensures
        reader_step(reader_step(r, ev).0, ReaderEvent::Start).1 == ReaderAction::ReadHeader,
{
}


/// A payload whose data was not there yet is read again, with the same size, at
/// the start of the next read, before any new header.
pub proof fn law_unfinished_payload_is_retried(r: PacketReader, n: u32)
    requires
        r.phase == ReaderPhase::Payload(n),
    ensures
        ({
            let (r1, a1) = reader_step(r, ReaderEvent::PayloadRead(false));
            let (r2, a2) = reader_step(r1, ReaderEvent::Start);
            &&& a1 == ReaderAction::Finish(false)
            &&& a2 == ReaderAction::ReadPayload(n)
        }),
{
}

/// A header announcing more than the limit closes the connection, and the
/// oversized payload is never read.
pub proof fn law_oversized_packet_kills(r: PacketReader, h: [u8; 4])
    requires
        r.phase == ReaderPhase::Header,
        be_value(h@) > PACKET_SIZE_LIMIT,
    ensures
        reader_step(r, ReaderEvent::HeaderRead(Some(h))).1 == ReaderAction::Kill(KillReason::PacketTooBig),
        !reader_step(r, ReaderEvent::HeaderRead(Some(h))).0.alive,
{
    assert(be_value(h@) <= 0xffff_ffff) by (nonlinear_arith)
        requires 0 <= h@[0] < 256, 0 <= h@[1] < 256, 0 <= h@[2] < 256, 0 <= h@[3] < 256;
}

/// A complete packet (header and payload available, payload valid) is read and
/// processed in one go, and the reader is ready for the next one.
pub proof fn law_complete_packet_is_processed(r: PacketReader, len: u32)
    requires
        r.phase == ReaderPhase::Idle,
        r.next_packet is None,
        len <= PACKET_SIZE_LIMIT,
    ensures
        ({
            let h: Seq<u8> = be_bytes_u32(len);
            let (r1, a1) = reader_step(r, ReaderEvent::Start);
            &&& a1 == ReaderAction::ReadHeader
            &&& forall|arr: [u8; 4]| arr@ == h ==> {
                let (r2, a2) = #[trigger] reader_step(r1, ReaderEvent::HeaderRead(Some(arr)));
                let (r3, a3) = reader_step(r2, ReaderEvent::PayloadRead(true));
                let (r4, a4) = reader_step(r3, ReaderEvent::Processed(true));
                &&& a2 == ReaderAction::ReadPayload(len)
                &&& a3 == ReaderAction::ProcessPayload
                &&& a4 == ReaderAction::Finish(true)
                &&& r4.phase == ReaderPhase::Idle && r4.alive == r.alive && r4.next_packet is None
            }
        }),
{
    law_header_round_trip(len);
}

/// The words of `s` (maximal runs of non-white-space characters), where `cur`
/// is a word already begun before `s`.
pub open spec fn split_ws(s: Seq<char>, cur: Seq<char>) -> Seq<Seq<char>>
    decreases s.len(),
{
    if s.len() == 0 {
        if cur.len() > 0 { seq![cur] } else { seq![] }
    } else if is_white_space(s[0]) {
        (if cur.len() > 0 { seq![cur] } else { Seq::<Seq<char>>::empty() }) + split_ws(s.drop_first(), seq![])
    } else {
        split_ws(s.drop_first(), cur.push(s[0]))
    }
}

/// The words of `s`, as `str::split_whitespace` gives them.
pub open spec fn words(s: Seq<char>) -> Seq<Seq<char>> {
    split_ws(s, seq![])
}

/// The command-line arguments in `input`, separated by white space.
pub fn gen_args_vec(input: &str) -> (r: Vec<String>)
    ensures
        r@.map_values(|x: String| x@) == words(input@),
{
    let cs = chars_of(input);
    let ghost s = cs@;
    let mut out: Vec<String> = Vec::new();
    let mut cur: Vec<char> = Vec::new();
    let mut i: usize = 0;
    assert(s.skip(0) == s);
    assert(out@.map_values(|x: String| x@) == Seq::<Seq<char>>::empty());
    assert(Seq::<Seq<char>>::empty() + words(s) == words(s));
    while i < cs.len()
        invariant
            s == cs@,
            i <= s.len(),
            out@.map_values(|x: String| x@) + split_ws(s.skip(i as int), cur@) == words(s),
        decreases s.len() - i,
    {
        let c = cs[i];
        let ghost rest = s.skip(i as int);
        assert(rest.drop_first() == s.skip(i + 1));
        assert(rest[0] == c);
        if is_whitespace(c) {
            if cur.len() > 0 {
                let w = string_from_chars(&cur);
                let ghost before = out@.map_values(|x: String| x@);
                out.push(w);
                assert(out@.map_values(|x: String| x@) == before.push(cur@));
                assert(before + (seq![cur@] + split_ws(rest.drop_first(), seq![]))
                    == before.push(cur@) + split_ws(rest.drop_first(), seq![]));
            } else {
                assert(Seq::<Seq<char>>::empty() + split_ws(rest.drop_first(), seq![]) == split_ws(rest.drop_first(), seq![]));
            }
            cur = Vec::new();
            assert(cur@ == Seq::<char>::empty());
        } else {
            cur.push(c);
        }
        i = i + 1;
    }
    assert(s.skip(i as int).len() == 0);
    if cur.len() > 0 {
        let w = string_from_chars(&cur);
        let ghost before = out@.map_values(|x: String| x@);
        out.push(w);
        assert(out@.map_values(|x: String| x@) == before.push(cur@));
        assert(before + seq![cur@] == before.push(cur@));
    } else {
        assert(out@.map_values(|x: String| x@) + Seq::<Seq<char>>::empty() == out@.map_values(|x: String| x@));
    }
    out
}

/// `s` split at its first `=`: the name before it and the value after it, if
/// `s` holds one.
pub open spec fn split_env(s: Seq<char>) -> Option<(Seq<char>, Seq<char>)> {
    if exists|i: int| 0 <= i < s.len() && s[i] == '=' {
        let i = choose|i: int| 0 <= i < s.len() && s[i] == '=' && forall|j: int| 0 <= j < i ==> s[j] != '=';
        Some((s.take(i), s.skip(i + 1)))
    } else {
        None
    }
}

/// The `NAME=value` pairs of `input`, skipping entries without `=`.
pub open spec fn env_pairs(input: Seq<Seq<char>>) -> Seq<(Seq<char>, Seq<char>)>
    decreases input.len(),
{
    if input.len() == 0 {
        seq![]
    } else {
        let rest = env_pairs(input.drop_last());
        match split_env(input.last()) {
            Some(p) => rest.push(p),
            None => rest,
        }
    }
}

proof fn lemma_split_env_at(s: Seq<char>, i: int)
    requires
        0 <= i < s.len(),
        s[i] == '=',
        forall|j: int| 0 <= j < i ==> s[j] != '=',
    ensures
        split_env(s) == Some((s.take(i), s.skip(i + 1))),
{
    let k = choose|k: int| 0 <= k < s.len() && s[k] == '=' && forall|j: int| 0 <= j < k ==> s[j] != '=';
    assert(0 <= k < s.len() && s[k] == '=' && forall|j: int| 0 <= j < k ==> s[j] != '=');
    if k < i {
        assert(s[k] != '=');
    }
    if i < k {
        assert(s[i] != '=');
    }
}

pub fn split_once_eq(s: &str) -> (r: Option<(String, String)>)
    ensures
        match r {
            Some((a, b)) => split_env(s@) == Some((a@, b@)),
            None => split_env(s@) is None,
        },
{
    let cs = chars_of(s);
    let mut i: usize = 0;
    while i < cs.len()
        invariant
            cs@ == s@,
            i <= cs@.len(),
            forall|j: int| 0 <= j < i ==> cs@[j] != '=',
        decreases cs@.len() - i,
    {
        if cs[i] == '=' {
            let mut a = String::new();
            let mut b = String::new();
            let mut j: usize = 0;
            while j < i
                invariant
                    cs@ == s@,
                    j <= i < cs@.len(),
                    a@ == cs@.take(j as int),
                decreases i - j,
            {
                push_char(&mut a, cs[j]);
                assert(cs@.take(j + 1) == cs@.take(j as int).push(cs@[j as int]));
                j = j + 1;
            }
            let mut k: usize = i + 1;
            while k < cs.len()
                invariant
                    cs@ == s@,
                    i + 1 <= k <= cs@.len(),
                    b@ == cs@.subrange(i + 1, k as int),
                decreases cs@.len() - k,
            {
                push_char(&mut b, cs[k]);
                assert(cs@.subrange(i + 1, k + 1) == cs@.subrange(i + 1, k as int).push(cs@[k as int]));
                k = k + 1;
            }
            proof {
                lemma_split_env_at(s@, i as int);
                assert(b@ == s@.skip(i + 1));
            }
            return Some((a, b));
        }
        i = i + 1;
    }
    None
}

/// The environment variables of `input`: each `NAME=value` entry split at its
/// first `=`; entries without `=` are left out.
pub fn gen_env_vec(input: &[String]) -> (r: Vec<(String, String)>)
    ensures
        r@.map_values(|p: (String, String)| (p.0@, p.1@)) == env_pairs(input@.map_values(|x: String| x@)),
{
    let mut out: Vec<(String, String)> = Vec::new();
    let mut i: usize = 0;
    let ghost all = input@.map_values(|x: String| x@);
    while i < input.len()
        invariant
            i <= input@.len(),
            all == input@.map_values(|x: String| x@),
            out@.map_values(|p: (String, String)| (p.0@, p.1@)) == env_pairs(all.take(i as int)),
        decreases input@.len() - i,
    {
        let ghost before = out@.map_values(|p: (String, String)| (p.0@, p.1@));
        let r = split_once_eq(input[i].as_str());
        proof {
            let t = all.take(i + 1);
            assert(t.drop_last() == all.take(i as int));
            assert(t.last() == input@[i as int]@);
        }
        match r {
            Some(pair) => {
                out.push(pair);
                assert(out@.map_values(|p: (String, String)| (p.0@, p.1@)) == before.push((pair.0@, pair.1@)));
            },
            None => {},
        }
        i = i + 1;
    }
    assert(all.take(input@.len() as int) == all);
    out
}

} // verus!
