//! The commands of the protocol, read from a packet's payload.
//!
//! The first byte of the payload selects the command; what follows it is
//! hexadecimal text, parted by `,`, `:`, `=` or `;`. Reading a payload is
//! separate from answering it: a payload is first turned into a `Command`.

use crate::binary::{unescape, unescaped};
use crate::frame::{start_of, START};
use crate::hex::{decoded_hex, hex_decode, parse_hex, parsed_hex};
use crate::packet::{
    colon_of, comma_of, lemma_skip_hex_bounds, stored, RspPacket, COLON, COMMA,
};
use vstd::prelude::*;
use vstd::slice::*;
use vstd::string::*;

verus! {

/// Why the target last stopped, as the signal that a stop reply carries.
#[derive(Clone, Copy, Debug, PartialEq, Eq, Structural)]
pub enum StopSignal {
    /// The peer interrupted the target: signal 2.
    Interrupt,
    /// The target ran into a breakpoint or finished a step: signal 5.
    Trap,
}

/// What a command asks of the debug target.
#[derive(Debug, PartialEq, Eq)]
pub enum TargetRequest {
    /// Read all general registers.
    ReadRegisters,
    /// Overwrite all general registers with `bytes`.
    WriteRegisters { bytes: Vec<u8> },
    /// Read the register `number`.
    ReadRegister { number: u64 },
    /// Overwrite the register `number` with `bytes`.
    WriteRegister { number: u64, bytes: Vec<u8> },
    /// Read `len` bytes of memory at `addr`.
    ReadMemory { addr: u64, len: u64 },
    /// Write `bytes` to memory at `addr`.
    WriteMemory { addr: u64, bytes: Vec<u8> },
    /// Set a breakpoint or watchpoint of type `mtype`, 0 to 4.
    InsertMatchpoint { mtype: u8, addr: u64, kind: u64 },
    /// Clear a breakpoint or watchpoint of type `mtype`, 0 to 4.
    RemoveMatchpoint { mtype: u8, addr: u64, kind: u64 },
    /// Run until the target stops or the peer interrupts.
    Continue,
    /// Execute one instruction.
    Step,
}

/// A request with its byte strings as sequences.
pub enum RequestView {
    ReadRegisters,
    WriteRegisters { bytes: Seq<u8> },
    ReadRegister { number: u64 },
    WriteRegister { number: u64, bytes: Seq<u8> },
    ReadMemory { addr: u64, len: u64 },
    WriteMemory { addr: u64, bytes: Seq<u8> },
    InsertMatchpoint { mtype: u8, addr: u64, kind: u64 },
    RemoveMatchpoint { mtype: u8, addr: u64, kind: u64 },
    Continue,
    Step,
}

impl View for TargetRequest {
    type V = RequestView;

    open spec fn view(&self) -> RequestView {
        match *self {
            TargetRequest::ReadRegisters => RequestView::ReadRegisters,
            TargetRequest::WriteRegisters { bytes } => RequestView::WriteRegisters { bytes: bytes@ },
            TargetRequest::ReadRegister { number } => RequestView::ReadRegister { number },
            TargetRequest::WriteRegister { number, bytes } => RequestView::WriteRegister {
                number,
                bytes: bytes@,
            },
            TargetRequest::ReadMemory { addr, len } => RequestView::ReadMemory { addr, len },
            TargetRequest::WriteMemory { addr, bytes } => RequestView::WriteMemory {
                addr,
                bytes: bytes@,
            },
            TargetRequest::InsertMatchpoint { mtype, addr, kind } => RequestView::InsertMatchpoint {
                mtype,
                addr,
                kind,
            },
            TargetRequest::RemoveMatchpoint { mtype, addr, kind } => RequestView::RemoveMatchpoint {
                mtype,
                addr,
                kind,
            },
            TargetRequest::Continue => RequestView::Continue,
            TargetRequest::Step => RequestView::Step,
        }
    }
}

/// What a packet asks for.
#[derive(Debug, PartialEq, Eq)]
pub enum Command {
    /// Something for the debug target to do.
    Target(TargetRequest),
    /// `?`: why did the target stop?
    StopReason,
    /// `X` with no data: does the server take binary writes?
    WriteProbe,
    /// `qSupported`: which features does the server have?
    Supported,
    /// `qfThreadInfo`, `qsThreadInfo`: the list of threads.
    ThreadList,
    /// `qC`: the current thread.
    CurrentThread,
    /// `qAttached`: was the process attached to, or created?
    Attached,
    /// `qSymbol`: the peer offers symbol lookups.
    Symbol,
    /// `qOffsets`: the section offsets.
    Offsets,
    /// `qRcmd`: a monitor command, decoded.
    Monitor { cmd: Vec<u8> },
    /// `QStartNoAckMode`: stop acknowledging.
    StartNoAck,
    /// `vCont?`: which resume actions does the server take?
    ContinueActions,
    /// `vKill`: end the session.
    Kill,
    /// `!`: enable extended mode.
    ExtendedMode,
    /// `R`: restart the program.
    Restart,
    /// A command this server does not have.
    Unsupported,
    /// A command this server has, garbled.
    Malformed,
}

/// A command with its byte strings as sequences.
pub enum CommandView {
    Target(RequestView),
    StopReason,
    WriteProbe,
    Supported,
    ThreadList,
    CurrentThread,
    Attached,
    Symbol,
    Offsets,
    Monitor { cmd: Seq<u8> },
    StartNoAck,
    ContinueActions,
    Kill,
    ExtendedMode,
    Restart,
    Unsupported,
    Malformed,
}

impl View for Command {
    type V = CommandView;

    open spec fn view(&self) -> CommandView {
        match *self {
            Command::Target(request) => CommandView::Target(request@),
            Command::StopReason => CommandView::StopReason,
            Command::WriteProbe => CommandView::WriteProbe,
            Command::Supported => CommandView::Supported,
            Command::ThreadList => CommandView::ThreadList,
            Command::CurrentThread => CommandView::CurrentThread,
            Command::Attached => CommandView::Attached,
            Command::Symbol => CommandView::Symbol,
            Command::Offsets => CommandView::Offsets,
            Command::Monitor { cmd } => CommandView::Monitor { cmd: cmd@ },
            Command::StartNoAck => CommandView::StartNoAck,
            Command::ContinueActions => CommandView::ContinueActions,
            Command::Kill => CommandView::Kill,
            Command::ExtendedMode => CommandView::ExtendedMode,
            Command::Restart => CommandView::Restart,
            Command::Unsupported => CommandView::Unsupported,
            Command::Malformed => CommandView::Malformed,
        }
    }
}

/// The first index from `from` on at which `s` holds `b`, or its length.
pub open spec fn first_at(s: Seq<u8>, b: u8, from: int) -> int
    decreases s.len() - from,
{
    if 0 <= from < s.len() && s[from] != b {
        first_at(s, b, from + 1)
    } else {
        from
    }
}

/// The payload begins with the bytes of `name`.
pub open spec fn named(data: Seq<u8>, name: &str) -> bool {
    name.spec_bytes().is_prefix_of(data)
}

/// `G<hex>`: all registers.
pub open spec fn write_registers_command(data: Seq<u8>) -> CommandView {
    match decoded_hex(data.skip(1)) {
        Some(bytes) => CommandView::Target(RequestView::WriteRegisters { bytes }),
        None => CommandView::Malformed,
    }
}

/// `p<n>`: one register.
pub open spec fn read_register_command(data: Seq<u8>) -> CommandView {
    match parsed_hex(data.skip(1)) {
        Some(number) => CommandView::Target(RequestView::ReadRegister { number }),
        None => CommandView::Malformed,
    }
}

/// `P<n>=<hex>`: one register.
pub open spec fn write_register_command(data: Seq<u8>) -> CommandView {
    let eq = first_at(data, 0x3d, 1);
    if eq >= data.len() {
        CommandView::Malformed
    } else {
        match (parsed_hex(data.subrange(1, eq)), decoded_hex(data.skip(eq + 1))) {
            (Some(number), Some(bytes)) => CommandView::Target(
                RequestView::WriteRegister { number, bytes },
            ),
            _ => CommandView::Malformed,
        }
    }
}

/// `m<addr>,<len>`: memory.
pub open spec fn read_memory_command(data: Seq<u8>) -> CommandView {
    let comma = first_at(data, COMMA, 1);
    if comma >= data.len() {
        CommandView::Malformed
    } else {
        match (parsed_hex(data.subrange(1, comma)), parsed_hex(data.skip(comma + 1))) {
            (Some(addr), Some(len)) => CommandView::Target(RequestView::ReadMemory { addr, len }),
            _ => CommandView::Malformed,
        }
    }
}

/// `M<addr>,<len>:<hex>`: memory, the data in hexadecimal and as long as
/// announced.
pub open spec fn write_memory_command(data: Seq<u8>) -> CommandView {
    let comma = first_at(data, COMMA, 1);
    let colon = first_at(data, COLON, comma + 1);
    if comma >= data.len() || colon >= data.len() {
        CommandView::Malformed
    } else {
        match (
            parsed_hex(data.subrange(1, comma)),
            parsed_hex(data.subrange(comma + 1, colon)),
            decoded_hex(data.skip(colon + 1)),
        ) {
            (Some(addr), Some(len), Some(bytes)) => if bytes.len() == len {
                CommandView::Target(RequestView::WriteMemory { addr, bytes })
            } else {
                CommandView::Malformed
            },
            _ => CommandView::Malformed,
        }
    }
}

/// `X<addr>,<len>:<bytes>`: memory, the data raw and escaped. It is read
/// from all received bytes of the frame, by the header's own digits and
/// never by a search through the data. With no data it is a probe.
pub open spec fn binary_command(buf: Seq<u8>) -> CommandView {
    let first = start_of(buf).unwrap() + 2;
    let end = buf.len() - 3;
    match (comma_of(buf), colon_of(buf)) {
        (Some(comma), Some(colon)) => match (
            parsed_hex(buf.subrange(first, comma)),
            parsed_hex(buf.subrange(comma + 1, colon)),
            unescaped(buf.subrange(colon + 1, end)),
        ) {
            (Some(addr), Some(len), Some(bytes)) => if bytes.len() != len {
                CommandView::Malformed
            } else if len == 0 {
                CommandView::WriteProbe
            } else {
                CommandView::Target(RequestView::WriteMemory { addr, bytes })
            },
            _ => CommandView::Malformed,
        },
        _ => CommandView::Malformed,
    }
}

/// `z<type>,<addr>,<kind>` and `Z<type>,<addr>,<kind>`. The type is one
/// character; types other than 0 to 4 are not supported.
pub open spec fn matchpoint_command(data: Seq<u8>, insert: bool) -> CommandView {
    let comma = first_at(data, COMMA, 3);
    if data.len() < 4 || data[2] != COMMA || comma >= data.len() {
        CommandView::Malformed
    } else {
        match (parsed_hex(data.subrange(3, comma)), parsed_hex(data.skip(comma + 1))) {
            (Some(addr), Some(kind)) => if 0x30 <= data[1] <= 0x34 {
                let mtype = (data[1] - 0x30) as u8;
                if insert {
                    CommandView::Target(RequestView::InsertMatchpoint { mtype, addr, kind })
                } else {
                    CommandView::Target(RequestView::RemoveMatchpoint { mtype, addr, kind })
                }
            } else {
                CommandView::Unsupported
            },
            _ => CommandView::Malformed,
        }
    }
}

/// The queries, `q...`.
pub open spec fn query_command(data: Seq<u8>) -> CommandView {
    if named(data, "qSupported") {
        CommandView::Supported
    } else if named(data, "qfThreadInfo") || named(data, "qsThreadInfo") {
        CommandView::ThreadList
    } else if named(data, "qC") {
        CommandView::CurrentThread
    } else if named(data, "qAttached") {
        CommandView::Attached
    } else if named(data, "qSymbol") {
        CommandView::Symbol
    } else if named(data, "qOffsets") {
        CommandView::Offsets
    } else if named(data, "qRcmd,") {
        match decoded_hex(data.skip(6)) {
            Some(cmd) => CommandView::Monitor { cmd },
            None => CommandView::Malformed,
        }
    } else {
        CommandView::Unsupported
    }
}

/// The settings, `Q...`.
pub open spec fn set_command(data: Seq<u8>) -> CommandView {
    if named(data, "QStartNoAckMode") {
        CommandView::StartNoAck
    } else {
        CommandView::Unsupported
    }
}

/// The multi-letter commands, `v...`. Of the resume actions only the
/// first counts, and only `c` and `s` are taken.
pub open spec fn verbose_command(data: Seq<u8>) -> CommandView {
    if named(data, "vCont?") {
        CommandView::ContinueActions
    } else if named(data, "vCont;c") {
        CommandView::Target(RequestView::Continue)
    } else if named(data, "vCont;s") {
        CommandView::Target(RequestView::Step)
    } else if named(data, "vKill") {
        CommandView::Kill
    } else {
        CommandView::Unsupported
    }
}

/// The command that a payload without binary data holds.
pub open spec fn text_command(data: Seq<u8>) -> CommandView {
    if data.len() == 0 {
        CommandView::Unsupported
    } else if data[0] == 0x3f {
        CommandView::StopReason
    } else if data[0] == 0x67 {
        CommandView::Target(RequestView::ReadRegisters)
    } else if data[0] == 0x47 {
        write_registers_command(data)
    } else if data[0] == 0x70 {
        read_register_command(data)
    } else if data[0] == 0x50 {
        write_register_command(data)
    } else if data[0] == 0x6d {
        read_memory_command(data)
    } else if data[0] == 0x4d {
        write_memory_command(data)
    } else if data[0] == 0x7a {
        matchpoint_command(data, false)
    } else if data[0] == 0x5a {
        matchpoint_command(data, true)
    } else if data[0] == 0x71 {
        query_command(data)
    } else if data[0] == 0x51 {
        set_command(data)
    } else if data[0] == 0x76 {
        verbose_command(data)
    } else if data[0] == 0x21 {
        CommandView::ExtendedMode
    } else if data[0] == 0x52 {
        CommandView::Restart
    } else {
        CommandView::Unsupported
    }
}

impl<'a> RspPacket<'a> {
    /// The command that the packet holds.
    pub open spec fn command_spec(&self) -> CommandView {
        if self.data is Some {
            text_command(self.data.unwrap()@)
        } else {
            binary_command(self.raw.unwrap()@)
        }
    }
}

/// The first index from `from` on at which `data` holds `b`, or its
/// length.
pub fn find_byte(data: &[u8], b: u8, from: usize) -> (at: usize)
    requires
        from <= data.len(),
    ensures
        at == first_at(data@, b, from as int),
        from <= at <= data.len(),
{
    let mut at = from;
    while at < data.len() && data[at] != b
        invariant
            from <= at <= data.len(),
            first_at(data@, b, from as int) == first_at(data@, b, at as int),
        decreases data.len() - at,
    {
        at = at + 1;
    }
    at
}

/// Whether `data` begins with the bytes of `name`.
pub fn has_prefix(data: &[u8], name: &str) -> (yes: bool)
    ensures
        yes == named(data@, name),
{
    let want = name.as_bytes();
    if want.len() > data.len() {
        return false;
    }
    let mut i: usize = 0;
    while i < want.len()
        invariant
            i <= want.len() <= data.len(),
            want@ == name.spec_bytes(),
            forall|k: int| 0 <= k < i ==> want@[k] == data@[k],
        decreases want.len() - i,
    {
        if want[i] != data[i] {
            proof {
                assert(data@.subrange(0, want@.len() as int)[i as int] != want@[i as int]);
            }
            return false;
        }
        i = i + 1;
    }
    proof {
        assert(want@ =~= data@.subrange(0, want@.len() as int));
    }
    true
}

/// Reads `G<hex>`.
pub fn parse_write_registers(data: &[u8]) -> (cmd: Command)
    requires
        data@.len() >= 1,
    ensures
        cmd@ == write_registers_command(data@),
{
    let text = slice_subrange(data, 1, data.len());
    assert(text@ =~= data@.skip(1));
    match hex_decode(text) {
        Some(bytes) => Command::Target(TargetRequest::WriteRegisters { bytes }),
        None => Command::Malformed,
    }
}

/// Reads `p<n>`.
pub fn parse_read_register(data: &[u8]) -> (cmd: Command)
    requires
        data@.len() >= 1,
    ensures
        cmd@ == read_register_command(data@),
{
    let text = slice_subrange(data, 1, data.len());
    assert(text@ =~= data@.skip(1));
    match parse_hex(text) {
        Some(number) => Command::Target(TargetRequest::ReadRegister { number }),
        None => Command::Malformed,
    }
}

/// Reads `P<n>=<hex>`.
pub fn parse_write_register(data: &[u8]) -> (cmd: Command)
    requires
        data@.len() >= 1,
    ensures
        cmd@ == write_register_command(data@),
{
    let eq = find_byte(data, 0x3d, 1);
    if eq >= data.len() {
        return Command::Malformed;
    }
    let value = slice_subrange(data, eq + 1, data.len());
    assert(value@ =~= data@.skip(eq + 1));
    match (parse_hex(slice_subrange(data, 1, eq)), hex_decode(value)) {
        (Some(number), Some(bytes)) => Command::Target(
            TargetRequest::WriteRegister { number, bytes },
        ),
        _ => Command::Malformed,
    }
}

/// Reads `m<addr>,<len>`.
pub fn parse_read_memory(data: &[u8]) -> (cmd: Command)
    requires
        data@.len() >= 1,
    ensures
        cmd@ == read_memory_command(data@),
{
    let comma = find_byte(data, COMMA, 1);
    if comma >= data.len() {
        return Command::Malformed;
    }
    let count = slice_subrange(data, comma + 1, data.len());
    assert(count@ =~= data@.skip(comma + 1));
    match (parse_hex(slice_subrange(data, 1, comma)), parse_hex(count)) {
        (Some(addr), Some(len)) => Command::Target(TargetRequest::ReadMemory { addr, len }),
        _ => Command::Malformed,
    }
}

/// Reads `M<addr>,<len>:<hex>`.
pub fn parse_write_memory(data: &[u8]) -> (cmd: Command)
    requires
        data@.len() >= 1,
    ensures
        cmd@ == write_memory_command(data@),
{
    let comma = find_byte(data, COMMA, 1);
    if comma >= data.len() {
        return Command::Malformed;
    }
    let colon = find_byte(data, COLON, comma + 1);
    if colon >= data.len() {
        return Command::Malformed;
    }
    let text = slice_subrange(data, colon + 1, data.len());
    assert(text@ =~= data@.skip(colon + 1));
    match (
        parse_hex(slice_subrange(data, 1, comma)),
        parse_hex(slice_subrange(data, comma + 1, colon)),
        hex_decode(text),
    ) {
        (Some(addr), Some(len), Some(bytes)) => {
            if bytes.len() as u64 == len {
                Command::Target(TargetRequest::WriteMemory { addr, bytes })
            } else {
                Command::Malformed
            }
        },
        _ => Command::Malformed,
    }
}

/// Reads `z<type>,<addr>,<kind>`, or `Z<type>,<addr>,<kind>` where
/// `insert` is set.
pub fn parse_matchpoint(data: &[u8], insert: bool) -> (cmd: Command)
    requires
        data@.len() >= 1,
    ensures
        cmd@ == matchpoint_command(data@, insert),
{
    if data.len() < 4 || data[2] != COMMA {
        return Command::Malformed;
    }
    let comma = find_byte(data, COMMA, 3);
    if comma >= data.len() {
        return Command::Malformed;
    }
    let kind_text = slice_subrange(data, comma + 1, data.len());
    assert(kind_text@ =~= data@.skip(comma + 1));
    match (parse_hex(slice_subrange(data, 3, comma)), parse_hex(kind_text)) {
        (Some(addr), Some(kind)) => {
            if 0x30 <= data[1] && data[1] <= 0x34 {
                let mtype = data[1] - 0x30;
                if insert {
                    Command::Target(TargetRequest::InsertMatchpoint { mtype, addr, kind })
                } else {
                    Command::Target(TargetRequest::RemoveMatchpoint { mtype, addr, kind })
                }
            } else {
                Command::Unsupported
            }
        },
        _ => Command::Malformed,
    }
}

/// Reads a query, `q...`.
pub fn parse_query(data: &[u8]) -> (cmd: Command)
    ensures
        cmd@ == query_command(data@),
{
    if has_prefix(data, "qSupported") {
        Command::Supported
    } else if has_prefix(data, "qfThreadInfo") || has_prefix(data, "qsThreadInfo") {
        Command::ThreadList
    } else if has_prefix(data, "qC") {
        Command::CurrentThread
    } else if has_prefix(data, "qAttached") {
        Command::Attached
    } else if has_prefix(data, "qSymbol") {
        Command::Symbol
    } else if has_prefix(data, "qOffsets") {
        Command::Offsets
    } else if has_prefix(data, "qRcmd,") {
        proof {
            reveal_strlit("qRcmd,");
            vstd::utf8::is_ascii_chars_encode_utf8("qRcmd,"@);
        }
        let text = slice_subrange(data, 6, data.len());
        assert(text@ =~= data@.skip(6));
        match RspPacket::extract_monitor_cmd(text) {
            Some(cmd) => Command::Monitor { cmd },
            None => Command::Malformed,
        }
    } else {
        Command::Unsupported
    }
}

/// Reads a setting, `Q...`.
pub fn parse_set(data: &[u8]) -> (cmd: Command)
    ensures
        cmd@ == set_command(data@),
{
    if has_prefix(data, "QStartNoAckMode") {
        Command::StartNoAck
    } else {
        Command::Unsupported
    }
}

/// Reads a multi-letter command, `v...`.
pub fn parse_verbose(data: &[u8]) -> (cmd: Command)
    ensures
        cmd@ == verbose_command(data@),
{
    if has_prefix(data, "vCont?") {
        Command::ContinueActions
    } else if has_prefix(data, "vCont;c") {
        Command::Target(TargetRequest::Continue)
    } else if has_prefix(data, "vCont;s") {
        Command::Target(TargetRequest::Step)
    } else if has_prefix(data, "vKill") {
        Command::Kill
    } else {
        Command::Unsupported
    }
}

/// Reads the command of a payload without binary data.
pub fn parse_text(data: &[u8]) -> (cmd: Command)
    ensures
        cmd@ == text_command(data@),
{
    if data.len() == 0 {
        return Command::Unsupported;
    }
    let first = data[0];
    if first == 0x3f {
        Command::StopReason
    } else if first == 0x67 {
        Command::Target(TargetRequest::ReadRegisters)
    } else if first == 0x47 {
        parse_write_registers(data)
    } else if first == 0x70 {
        parse_read_register(data)
    } else if first == 0x50 {
        parse_write_register(data)
    } else if first == 0x6d {
        parse_read_memory(data)
    } else if first == 0x4d {
        parse_write_memory(data)
    } else if first == 0x7a {
        parse_matchpoint(data, false)
    } else if first == 0x5a {
        parse_matchpoint(data, true)
    } else if first == 0x71 {
        parse_query(data)
    } else if first == 0x51 {
        parse_set(data)
    } else if first == 0x76 {
        parse_verbose(data)
    } else if first == 0x21 {
        Command::ExtendedMode
    } else if first == 0x52 {
        Command::Restart
    } else {
        Command::Unsupported
    }
}

/// Reads `X<addr>,<len>:<bytes>` from all received bytes of its frame,
/// given where `,` and `:` stand, if the header has them.
fn parse_binary(raw: &[u8], comma_pos: Option<usize>, colon_pos: Option<usize>) -> (cmd:
    Command)
    requires
        start_of(raw@) is Some,
        raw@.len() >= start_of(raw@).unwrap() + 4,
        comma_pos == stored(comma_of(raw@)),
        colon_pos == stored(colon_of(raw@)),
    ensures
        cmd@ == binary_command(raw@),
{
    let first: usize = if raw[0] == START {
        2
    } else {
        3
    };
    let end = raw.len() - 3;
    match (comma_pos, colon_pos) {
        (Some(comma), Some(colon)) => {
            proof {
                lemma_skip_hex_bounds(raw@.take(end as int), first as int);
                lemma_skip_hex_bounds(raw@.take(end as int), comma + 1);
            }
            match (
                parse_hex(slice_subrange(raw, first, comma)),
                parse_hex(slice_subrange(raw, comma + 1, colon)),
                unescape(slice_subrange(raw, colon + 1, end)),
            ) {
                (Some(addr), Some(len), Some(bytes)) => {
                    if bytes.len() as u64 != len {
                        Command::Malformed
                    } else if len == 0 {
                        Command::WriteProbe
                    } else {
                        Command::Target(TargetRequest::WriteMemory { addr, bytes })
                    }
                },
                _ => Command::Malformed,
            }
        },
        _ => Command::Malformed,
    }
}

impl<'a> RspPacket<'a> {
    /// Reads the command that the packet holds.
    pub fn command(&self) -> (cmd: Command)
        requires
            self.wf(),
            self.only_symb == Some(false),
        ensures
            cmd@ == self.command_spec(),
    {
        match self.data {
            Some(data) => parse_text(data),
            None => match self.raw {
                Some(raw) => parse_binary(raw, self.comma_pos, self.colon_pos),
                None => Command::Unsupported,
            },
        }
    }
}

} // verus!
