//! Messages of the local IPC protocol between the compositor and its clients.

use vstd::prelude::*;

verus! {

pub type Serial = u64;

/// Hands out request serial numbers: 0, 1, 2, ... It has a single owner:
/// callers that share one sequence of serials hold it behind their own lock.
pub struct SerialGenerator {
    serial: u64,
}

impl SerialGenerator {
    /// The serial the next call of `increment_get` returns.
    pub closed spec fn current(&self) -> u64 {
        self.serial
    }

    pub fn new() -> (g: SerialGenerator)
        ensures
            g.current() == 0,
    {
        SerialGenerator { serial: 0 }
    }

    /// Returns the current serial and advances to the next one.
    pub fn increment_get(&mut self) -> (s: Serial)
        requires
            old(self).current() < u64::MAX,
        ensures
            s == old(self).current(),
            final(self).current() == old(self).current() + 1,
    {
        let cur = self.serial;
        self.serial = self.serial + 1;
        cur
    }
}

/// Serials are never handed out twice: two successive calls of `increment_get`
/// give strictly increasing values, one apart.
pub proof fn law_serials_increase(g0: SerialGenerator, s1: Serial, g1: SerialGenerator, s2: Serial, g2: SerialGenerator)
    requires
        s1 == g0.current() && g1.current() == g0.current() + 1,
        s2 == g1.current() && g2.current() == g1.current() + 1,
    ensures
        s1 < s2,
        s2 == s1 + 1,
{
}

pub const PROTOCOL_VERSION: u32 = 1;
pub const CONNECTION_MAGIC: u64 = 0xfadedc0ffee;

/// First message of a connection; its encoding is 64 bytes long for
/// compatibility with newer protocols, hence the padding.
pub struct Handshake {
    pub protocol_version: u32,
    pub magic: u64,
    pub padding1: u64,
    pub padding2: u64,
    pub padding3: u64,
    pub padding4: u64,
    pub padding5: u64,
    pub padding6: u64,
}

impl Default for Handshake {
    fn default() -> (h: Handshake)
        ensures
            h.protocol_version == 0,
            h.magic == 0,
            h.padding1 == 0 && h.padding2 == 0 && h.padding3 == 0,
            h.padding4 == 0 && h.padding5 == 0 && h.padding6 == 0,
    {
        Handshake {
            protocol_version: 0,
            magic: 0,
            padding1: 0,
            padding2: 0,
            padding3: 0,
            padding4: 0,
            padding5: 0,
            padding6: 0,
        }
    }
}

impl Handshake {
    pub fn new() -> (h: Handshake)
        ensures
            h.protocol_version == PROTOCOL_VERSION,
            h.magic == CONNECTION_MAGIC,
            h.padding1 == 0 && h.padding2 == 0 && h.padding3 == 0,
            h.padding4 == 0 && h.padding5 == 0 && h.padding6 == 0,
    {
        Handshake {
            protocol_version: PROTOCOL_VERSION,
            magic: CONNECTION_MAGIC,
            padding1: 0,
            padding2: 0,
            padding3: 0,
            padding4: 0,
            padding5: 0,
            padding6: 0,
        }
    }
}

#[derive(Clone, Copy, PartialEq, Eq, Structural, Debug)]
pub struct DisplayHandle {
    pub idx: u32,
    pub generation: u64,
}

#[derive(Clone, Copy, PartialEq, Eq, Structural, Debug)]
pub struct ProcessHandle {
    pub idx: u32,
    pub generation: u64,
}

pub struct Display {
    pub width: u32,
    pub height: u32,
    pub name: String,
    pub visible: bool,
    pub handle: DisplayHandle,
}

pub struct DisplayList {
    pub list: Vec<Display>,
}

pub struct Process {
    pub name: String,
    pub display_handle: DisplayHandle,
    pub handle: ProcessHandle,
}

pub struct ProcessList {
    pub list: Vec<Process>,
}

/// Requests of a client.
pub enum PacketClient {
    ListDisplays(Serial),
    GetDisplay(Serial, DisplayHandle),
}

/// Answers of the server.
pub enum PacketServer {
    ListDisplaysResponse(Serial, DisplayList),
    GetDisplayResponse(Serial, Option<Display>),
    ListProcessesResponse(Serial, ProcessList),
}

impl PacketServer {
    /// The serial of the request this packet answers.
    pub fn serial(&self) -> (r: Option<&Serial>)
        ensures
            r matches Some(s) && match self {
                PacketServer::ListDisplaysResponse(x, _) => *s == *x,
                PacketServer::GetDisplayResponse(x, _) => *s == *x,
                PacketServer::ListProcessesResponse(x, _) => *s == *x,
            },
    {
        match self {
            PacketServer::ListDisplaysResponse(serial, _) => Some(serial),
            PacketServer::GetDisplayResponse(serial, _) => Some(serial),
            PacketServer::ListProcessesResponse(serial, _) => Some(serial),
        }
    }
}

} // verus!
