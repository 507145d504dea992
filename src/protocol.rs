use vstd::prelude::*;
use crate::error::{Error, ErrorView};
use crate::walk::EntryKind;

verus! {

/// The version of the framing this library speaks; the first byte of every
/// frame.
pub const PROTOCOL_VERSION: u8 = 1;

pub const OP_ENUMERATE: u8 = 1;
pub const OP_CREATE_DIRECTORY: u8 = 2;
pub const OP_READ_FILE: u8 = 3;
pub const OP_WRITE_FILE: u8 = 4;

pub const RESP_SUCCESS: u8 = 0x81;
pub const RESP_BUSY: u8 = 0x82;
pub const RESP_FAILURE: u8 = 0x83;
pub const RESP_DECOMPRESSION_FAILED: u8 = 0x84;
pub const RESP_LISTING: u8 = 0x85;

/// A request from a client to a server. Paths travel as bytes.
#[derive(Debug, Clone, PartialEq, Eq)]
pub enum Command {
    /// List a directory.
    Enumerate { path: Vec<u8> },
    /// Create a directory.
    CreateDirectory { path: Vec<u8> },
    /// Send a file, which the client expects to have this size.
    ReadFile { path: Vec<u8>, attributes: u32, expected_size: u64 },
    /// Receive a file of this size, compressed at this level.
    WriteFile { path: Vec<u8>, attributes: u32, size: u64, compression_level: u8 },
}

pub enum CommandView {
    Enumerate { path: Seq<u8> },
    CreateDirectory { path: Seq<u8> },
    ReadFile { path: Seq<u8>, attributes: u32, expected_size: u64 },
    WriteFile { path: Seq<u8>, attributes: u32, size: u64, compression_level: u8 },
}

impl View for Command {
    type V = CommandView;

    open spec fn view(&self) -> CommandView {
        match self {
            Command::Enumerate { path } => CommandView::Enumerate { path: path@ },
            Command::CreateDirectory { path } => CommandView::CreateDirectory { path: path@ },
            Command::ReadFile { path, attributes, expected_size } =>
                CommandView::ReadFile { path: path@, attributes: *attributes, expected_size: *expected_size },
            Command::WriteFile { path, attributes, size, compression_level } =>
                CommandView::WriteFile { path: path@, attributes: *attributes, size: *size, compression_level: *compression_level },
        }
    }
}

/// A server's answer to a command.
#[derive(Debug, Clone, Copy, PartialEq, Eq, Structural)]
pub enum Response {
    /// Done; this many bytes were moved.
    Success { bytes: u64 },
    /// Too many clients; try again later.
    Busy,
    /// Failed with this error code.
    Failure { code: u32 },
    /// The data could not be decompressed; send it again uncompressed.
    DecompressionFailed,
}

/// `256` to the power `n`.
pub open spec fn pow256(n: nat) -> nat
    decreases n,
{
    if n == 0 { 1 } else { 256 * pow256((n - 1) as nat) }
}

/// The `n` bytes of `v`, least significant first.
pub open spec fn le_bytes(v: nat, n: nat) -> Seq<u8>
    decreases n,
{
    if n == 0 {
        Seq::empty()
    } else {
        seq![(v % 256) as u8] + le_bytes(v / 256, (n - 1) as nat)
    }
}

/// The number whose bytes, least significant first, are `s`.
pub open spec fn le_value(s: Seq<u8>) -> nat
    decreases s.len(),
{
    if s.len() == 0 {
        0
    } else {
        s[0] as nat + 256 * le_value(s.drop_first())
    }
}

pub proof fn lemma_le_bytes_len(v: nat, n: nat)
    ensures
        le_bytes(v, n).len() == n,
    decreases n,
{
    if n > 0 {
        lemma_le_bytes_len(v / 256, (n - 1) as nat);
    }
}

/// Reading back the bytes of a number that fits gives the number.
pub proof fn lemma_le_round_trip(v: nat, n: nat)
    requires
        v < pow256(n),
    ensures
        le_value(le_bytes(v, n)) == v,
    decreases n,
{
    if n > 0 {
        assert(v / 256 < pow256((n - 1) as nat)) by (nonlinear_arith)
            requires v < 256 * pow256((n - 1) as nat);
        lemma_le_round_trip(v / 256, (n - 1) as nat);
        let s = le_bytes(v, n);
        assert(s.drop_first() =~= le_bytes(v / 256, (n - 1) as nat));
        assert(v == (v % 256) + 256 * (v / 256)) by (nonlinear_arith);
    }
}

proof fn lemma_le_value_bound(s: Seq<u8>)
    ensures
        le_value(s) < pow256(s.len()),
    decreases s.len(),
{
    if s.len() > 0 {
        lemma_le_value_bound(s.drop_first());
        let r = le_value(s.drop_first());
        let p = pow256((s.len() - 1) as nat);
        assert(s[0] as nat + 256 * r < 256 * p) by (nonlinear_arith)
            requires r < p, s[0] < 256;
    }
}

/// The field of `n` bytes at `at`, read as a number.
pub open spec fn field(b: Seq<u8>, at: int, n: int) -> nat {
    le_value(b.subrange(at, at + n))
}

/// The bytes of a path field: its length in four bytes, then the path.
pub open spec fn path_field(p: Seq<u8>) -> Seq<u8> {
    le_bytes(p.len(), 4) + p
}

pub open spec fn command_op(c: CommandView) -> u8 {
    match c {
        CommandView::Enumerate { .. } => OP_ENUMERATE,
        CommandView::CreateDirectory { .. } => OP_CREATE_DIRECTORY,
        CommandView::ReadFile { .. } => OP_READ_FILE,
        CommandView::WriteFile { .. } => OP_WRITE_FILE,
    }
}

pub open spec fn command_path(c: CommandView) -> Seq<u8> {
    match c {
        CommandView::Enumerate { path } => path,
        CommandView::CreateDirectory { path } => path,
        CommandView::ReadFile { path, .. } => path,
        CommandView::WriteFile { path, .. } => path,
    }
}

/// The fields that follow the path.
pub open spec fn command_tail(c: CommandView) -> Seq<u8> {
    match c {
        CommandView::ReadFile { attributes, expected_size, .. } =>
            le_bytes(attributes as nat, 4) + le_bytes(expected_size as nat, 8),
        CommandView::WriteFile { attributes, size, compression_level, .. } =>
            le_bytes(attributes as nat, 4) + le_bytes(size as nat, 8) + seq![compression_level],
        _ => Seq::empty(),
    }
}

/// The frame of a command: version, opcode, path field, other fields.
pub open spec fn command_bytes(c: CommandView) -> Seq<u8> {
    seq![PROTOCOL_VERSION, command_op(c)] + path_field(command_path(c)) + command_tail(c)
}

/// The command a frame holds; none for a frame of another version, an
/// unknown opcode, or one too short for its fields. Bytes after the fields
/// are left for later versions and ignored.
pub open spec fn parse_command(b: Seq<u8>) -> Option<CommandView> {
    if b.len() < 6 || b[0] != PROTOCOL_VERSION {
        None
    } else {
        let end: int = 6 + field(b, 2, 4) as int;
        if b.len() < end {
            None
        } else {
            let path = b.subrange(6, end);
            let op = b[1];
            if op == OP_ENUMERATE {
                Some(CommandView::Enumerate { path })
            } else if op == OP_CREATE_DIRECTORY {
                Some(CommandView::CreateDirectory { path })
            } else if op == OP_READ_FILE {
                if b.len() < end + 12 {
                    None
                } else {
                    Some(CommandView::ReadFile {
                        path,
                        attributes: field(b, end, 4) as u32,
                        expected_size: field(b, end + 4, 8) as u64,
                    })
                }
            } else if op == OP_WRITE_FILE {
                if b.len() < end + 13 {
                    None
                } else {
                    Some(CommandView::WriteFile {
                        path,
                        attributes: field(b, end, 4) as u32,
                        size: field(b, end + 4, 8) as u64,
                        compression_level: b[end + 12],
                    })
                }
            } else {
                None
            }
        }
    }
}

pub open spec fn response_bytes(r: Response) -> Seq<u8> {
    match r {
        Response::Success { bytes } => seq![PROTOCOL_VERSION, RESP_SUCCESS] + le_bytes(bytes as nat, 8),
        Response::Busy => seq![PROTOCOL_VERSION, RESP_BUSY],
        Response::Failure { code } => seq![PROTOCOL_VERSION, RESP_FAILURE] + le_bytes(code as nat, 4),
        Response::DecompressionFailed => seq![PROTOCOL_VERSION, RESP_DECOMPRESSION_FAILED],
    }
}

/// The response a frame holds; none for a frame of another version, an
/// unknown kind, or one too short for its fields.
pub open spec fn parse_response(b: Seq<u8>) -> Option<Response> {
    if b.len() < 2 || b[0] != PROTOCOL_VERSION {
        None
    } else if b[1] == RESP_SUCCESS {
        if b.len() < 10 { None } else { Some(Response::Success { bytes: field(b, 2, 8) as u64 }) }
    } else if b[1] == RESP_BUSY {
        Some(Response::Busy)
    } else if b[1] == RESP_FAILURE {
        if b.len() < 6 { None } else { Some(Response::Failure { code: field(b, 2, 4) as u32 }) }
    } else if b[1] == RESP_DECOMPRESSION_FAILED {
        Some(Response::DecompressionFailed)
    } else {
        None
    }
}

fn push_le(out: &mut Vec<u8>, v: u64, n: usize)
    requires
        n <= 8,
        v < pow256(n as nat),
    ensures
        final(out)@ == old(out)@ + le_bytes(v as nat, n as nat),
    decreases n,
{
    if n > 0 {
        assert(v / 256 < pow256((n - 1) as nat)) by (nonlinear_arith)
            requires v < 256 * pow256((n - 1) as nat);
        out.push((v % 256) as u8);
        push_le(out, v / 256, n - 1);
        assert(final(out)@ =~= old(out)@ + le_bytes(v as nat, n as nat));
    }
}

proof fn lemma_pow256_facts()
    ensures
        pow256(4) == 0x1_0000_0000,
        pow256(8) == 0x1_0000_0000_0000_0000,
{
    reveal_with_fuel(pow256, 9);
}

fn read_le(b: &[u8], at: usize, n: usize) -> (r: u64)
    requires
        n <= 8,
        at + n <= b@.len(),
    ensures
        r == field(b@, at as int, n as int),
    decreases n,
{
    assert(b@.len() == b.len());
    if n == 0 {
        assert(b@.subrange(at as int, at as int) =~= Seq::<u8>::empty());
        0
    } else {
        let rest = read_le(b, at + 1, n - 1);
        proof {
            let s = b@.subrange(at as int, at + n);
            assert(s.drop_first() =~= b@.subrange(at + 1, at + n));
            lemma_le_value_bound(b@.subrange(at + 1, at + n));
            reveal_with_fuel(pow256, 8);
            assert(rest < pow256((n - 1) as nat));
            assert(pow256((n - 1) as nat) <= 0x100_0000_0000_0000);
        }
        b[at] as u64 + 256 * rest
    }
}

pub(crate) fn copy_bytes(b: &[u8], lo: usize, len: usize) -> (r: Vec<u8>)
    requires
        lo + len <= b@.len(),
    ensures
        r@ == b@.subrange(lo as int, lo + len),
{
    assert(b@.len() == b.len());
    let mut r: Vec<u8> = Vec::new();
    let mut i: usize = 0;
    while i < len
        invariant
            i <= len,
            b@.len() <= usize::MAX,
            lo + len <= b@.len(),
            r@ == b@.subrange(lo as int, lo + i),
        decreases len - i,
    {
        r.push(b[lo + i]);
        assert(r@ =~= b@.subrange(lo as int, lo + i + 1));
        i = i + 1;
    }
    r
}

fn append_bytes(out: &mut Vec<u8>, b: &Vec<u8>)
    ensures
        final(out)@ == old(out)@ + b@,
{
    let mut i: usize = 0;
    while i < b.len()
        invariant
            i <= b@.len(),
            out@ == old(out)@ + b@.subrange(0, i as int),
        decreases b@.len() - i,
    {
        out.push(b[i]);
        assert(out@ =~= old(out)@ + b@.subrange(0, i as int + 1));
        i = i + 1;
    }
    assert(b@.subrange(0, b@.len() as int) =~= b@);
}

fn path_of(c: &Command) -> (r: &Vec<u8>)
    ensures
        r@ == command_path(c@),
{
    match c {
        Command::Enumerate { path } => path,
        Command::CreateDirectory { path } => path,
        Command::ReadFile { path, .. } => path,
        Command::WriteFile { path, .. } => path,
    }
}

/// The frame of a command. A path of 2^32 bytes or more cannot be framed.
pub fn encode_command(c: &Command) -> (r: Result<Vec<u8>, Error>)
    ensures
        r is Ok <==> command_path(c@).len() < 0x1_0000_0000,
        r matches Ok(b) ==> b@ == command_bytes(c@),
        r matches Err(e) ==> e@ is InvalidArgument,
{
    let path = path_of(c);
    if path.len() as u64 >= 0x1_0000_0000u64 {
        return Err(Error::InvalidArgument(String::from_str("path too long for the protocol")));
    }
    proof {
        lemma_pow256_facts();
    }
    let mut out: Vec<u8> = Vec::new();
    let op = match c {
        Command::Enumerate { .. } => OP_ENUMERATE,
        Command::CreateDirectory { .. } => OP_CREATE_DIRECTORY,
        Command::ReadFile { .. } => OP_READ_FILE,
        Command::WriteFile { .. } => OP_WRITE_FILE,
    };
    out.push(PROTOCOL_VERSION);
    out.push(op);
    push_le(&mut out, path.len() as u64, 4);
    append_bytes(&mut out, path);
    let ghost head = out@;
    assert(head =~= seq![PROTOCOL_VERSION, command_op(c@)] + path_field(command_path(c@)));
    match c {
        Command::ReadFile { attributes, expected_size, .. } => {
            push_le(&mut out, *attributes as u64, 4);
            push_le(&mut out, *expected_size, 8);
        },
        Command::WriteFile { attributes, size, compression_level, .. } => {
            push_le(&mut out, *attributes as u64, 4);
            push_le(&mut out, *size, 8);
            out.push(*compression_level);
        },
        _ => {},
    }
    assert(out@ =~= command_bytes(c@));
    Ok(out)
}

/// The command a frame holds; a protocol error where the frame is of
/// another version, has an unknown opcode or is cut short.
pub fn decode_command(b: &[u8]) -> (r: Result<Command, Error>)
    ensures
        r is Ok <==> parse_command(b@) is Some,
        r matches Ok(c) ==> parse_command(b@) == Some(c@),
        r matches Err(e) ==> e@ is Protocol,
{
    let len = b.len();
    if len < 6 || b[0] != PROTOCOL_VERSION {
        return Err(Error::Protocol(String::from_str("unsupported or truncated frame")));
    }
    let n = read_le(b, 2, 4);
    if n > (len - 6) as u64 {
        return Err(Error::Protocol(String::from_str("truncated path")));
    }
    let end = 6 + n as usize;
    let path = copy_bytes(b, 6, n as usize);
    let op = b[1];
    if op == OP_ENUMERATE {
        Ok(Command::Enumerate { path })
    } else if op == OP_CREATE_DIRECTORY {
        Ok(Command::CreateDirectory { path })
    } else if op == OP_READ_FILE {
        if len - end < 12 {
            return Err(Error::Protocol(String::from_str("truncated read command")));
        }
        let attributes = read_le(b, end, 4);
        let expected_size = read_le(b, end + 4, 8);
        proof {
            lemma_le_value_bound(b@.subrange(end as int, end + 4));
            lemma_pow256_facts();
        }
        Ok(Command::ReadFile { path, attributes: attributes as u32, expected_size })
    } else if op == OP_WRITE_FILE {
        if len - end < 13 {
            return Err(Error::Protocol(String::from_str("truncated write command")));
        }
        let attributes = read_le(b, end, 4);
        let size = read_le(b, end + 4, 8);
        proof {
            lemma_le_value_bound(b@.subrange(end as int, end + 4));
            lemma_pow256_facts();
        }
        Ok(Command::WriteFile { path, attributes: attributes as u32, size, compression_level: b[end + 12] })
    } else {
        Err(Error::Protocol(String::from_str("unknown command")))
    }
}

/// The frame of a response.
pub fn encode_response(r: Response) -> (b: Vec<u8>)
    ensures
        b@ == response_bytes(r),
{
    proof {
        lemma_pow256_facts();
    }
    let mut out: Vec<u8> = Vec::new();
    out.push(PROTOCOL_VERSION);
    match r {
        Response::Success { bytes } => {
            out.push(RESP_SUCCESS);
            push_le(&mut out, bytes, 8);
        },
        Response::Busy => {
            out.push(RESP_BUSY);
        },
        Response::Failure { code } => {
            out.push(RESP_FAILURE);
            push_le(&mut out, code as u64, 4);
        },
        Response::DecompressionFailed => {
            out.push(RESP_DECOMPRESSION_FAILED);
        },
    }
    assert(out@ =~= response_bytes(r));
    out
}

/// The response a frame holds; a protocol error where the frame is of
/// another version, of an unknown kind or cut short.
pub fn decode_response(b: &[u8]) -> (r: Result<Response, Error>)
    ensures
        r is Ok <==> parse_response(b@) is Some,
        r matches Ok(v) ==> parse_response(b@) == Some(v),
        r matches Err(e) ==> e@ is Protocol,
{
    let len = b.len();
    if len < 2 || b[0] != PROTOCOL_VERSION {
        return Err(Error::Protocol(String::from_str("unsupported or truncated frame")));
    }
    let kind = b[1];
    if kind == RESP_SUCCESS {
        if len < 10 {
            return Err(Error::Protocol(String::from_str("truncated response")));
        }
        Ok(Response::Success { bytes: read_le(b, 2, 8) })
    } else if kind == RESP_BUSY {
        Ok(Response::Busy)
    } else if kind == RESP_FAILURE {
        if len < 6 {
            return Err(Error::Protocol(String::from_str("truncated response")));
        }
        let code = read_le(b, 2, 4);
        proof {
            lemma_le_value_bound(b@.subrange(2, 6));
            lemma_pow256_facts();
        }
        Ok(Response::Failure { code: code as u32 })
    } else if kind == RESP_DECOMPRESSION_FAILED {
        Ok(Response::DecompressionFailed)
    } else {
        Err(Error::Protocol(String::from_str("unknown response")))
    }
}

/// A command read back from its own frame is the same command: client and
/// server frame commands symmetrically.
pub proof fn lemma_command_round_trip(c: CommandView)
    requires
        command_path(c).len() < 0x1_0000_0000,
    ensures
        parse_command(command_bytes(c)) == Some(c),
{
    lemma_pow256_facts();
    let path = command_path(c);
    let n: int = path.len() as int;
    let lenb = le_bytes(n as nat, 4);
    let tail = command_tail(c);
    let b = command_bytes(c);
    lemma_le_bytes_len(n as nat, 4);
    lemma_le_round_trip(n as nat, 4);
    assert(b.subrange(2, 6) =~= lenb);
    assert(b.subrange(6, 6 + n) =~= path);
    let end: int = 6 + n;
    match c {
        CommandView::ReadFile { attributes, expected_size, .. } => {
            lemma_le_bytes_len(attributes as nat, 4);
            lemma_le_bytes_len(expected_size as nat, 8);
            lemma_le_round_trip(attributes as nat, 4);
            lemma_le_round_trip(expected_size as nat, 8);
            assert(b.subrange(end, end + 4) =~= le_bytes(attributes as nat, 4));
            assert(b.subrange(end + 4, end + 12) =~= le_bytes(expected_size as nat, 8));
        },
        CommandView::WriteFile { attributes, size, compression_level, .. } => {
            lemma_le_bytes_len(attributes as nat, 4);
            lemma_le_bytes_len(size as nat, 8);
            lemma_le_round_trip(attributes as nat, 4);
            lemma_le_round_trip(size as nat, 8);
            assert(b.subrange(end, end + 4) =~= le_bytes(attributes as nat, 4));
            assert(b.subrange(end + 4, end + 12) =~= le_bytes(size as nat, 8));
            assert(b[end + 12] == compression_level);
        },
        _ => {},
    }
}

/// A response read back from its own frame is the same response.
pub proof fn lemma_response_round_trip(r: Response)
    ensures
        parse_response(response_bytes(r)) == Some(r),
{
    lemma_pow256_facts();
    let b = response_bytes(r);
    match r {
        Response::Success { bytes } => {
            lemma_le_bytes_len(bytes as nat, 8);
            lemma_le_round_trip(bytes as nat, 8);
            assert(b.subrange(2, 10) =~= le_bytes(bytes as nat, 8));
        },
        Response::Failure { code } => {
            lemma_le_bytes_len(code as nat, 4);
            lemma_le_round_trip(code as nat, 4);
            assert(b.subrange(2, 6) =~= le_bytes(code as nat, 4));
        },
        _ => {},
    }
}

/// One entry of a directory listing sent by a server.
#[derive(Debug, Clone, PartialEq, Eq)]
pub struct ListedEntry {
    pub name: Vec<u8>,
    pub kind: EntryKind,
    pub size: u64,
}

pub struct ListedView {
    pub name: Seq<u8>,
    pub kind: EntryKind,
    pub size: u64,
}

impl View for ListedEntry {
    type V = ListedView;

    open spec fn view(&self) -> ListedView {
        ListedView { name: self.name@, kind: self.kind, size: self.size }
    }
}

pub open spec fn listing_view(es: Seq<ListedEntry>) -> Seq<ListedView> {
    es.map_values(|e: ListedEntry| e@)
}

pub open spec fn kind_byte(k: EntryKind) -> u8 {
    match k {
        EntryKind::File => 0,
        EntryKind::Directory => 1,
        EntryKind::Symlink => 2,
    }
}

/// The bytes of one listed entry: kind, size, then name field.
pub open spec fn entry_bytes(e: ListedView) -> Seq<u8> {
    seq![kind_byte(e.kind)] + le_bytes(e.size as nat, 8) + path_field(e.name)
}

pub open spec fn entries_bytes(es: Seq<ListedView>) -> Seq<u8>
    decreases es.len(),
{
    if es.len() == 0 {
        Seq::empty()
    } else {
        entry_bytes(es[0]) + entries_bytes(es.drop_first())
    }
}

/// The frame of a listing: version, kind, entry count, entries.
pub open spec fn listing_bytes(es: Seq<ListedView>) -> Seq<u8> {
    seq![PROTOCOL_VERSION, RESP_LISTING] + le_bytes(es.len() as nat, 4) + entries_bytes(es)
}

/// The entry at the start of `b`, and how many bytes it takes.
pub open spec fn parse_entry(b: Seq<u8>) -> Option<(ListedView, int)> {
    if b.len() < 13 || b[0] > 2 {
        None
    } else {
        let n = field(b, 9, 4) as int;
        if b.len() < 13 + n {
            None
        } else {
            let kind = if b[0] == 0 { EntryKind::File } else if b[0] == 1 { EntryKind::Directory } else { EntryKind::Symlink };
            Some((ListedView { name: b.subrange(13, 13 + n), kind, size: field(b, 1, 8) as u64 }, 13 + n))
        }
    }
}

/// The `count` entries at the start of `b`.
pub open spec fn parse_entries(b: Seq<u8>, count: nat) -> Option<Seq<ListedView>>
    decreases count,
{
    if count == 0 {
        Some(Seq::empty())
    } else {
        match parse_entry(b) {
            None => None,
            Some((e, used)) => match parse_entries(b.subrange(used, b.len() as int), (count - 1) as nat) {
                None => None,
                Some(rest) => Some(seq![e] + rest),
            },
        }
    }
}

/// The listing a frame holds; none for a frame of another version or kind,
/// or one cut short.
pub open spec fn parse_listing(b: Seq<u8>) -> Option<Seq<ListedView>> {
    if b.len() < 6 || b[0] != PROTOCOL_VERSION || b[1] != RESP_LISTING {
        None
    } else {
        parse_entries(b.subrange(6, b.len() as int), field(b, 2, 4))
    }
}

fn push_entry(out: &mut Vec<u8>, e: &ListedEntry)
    requires
        e.name@.len() < 0x1_0000_0000,
    ensures
        final(out)@ == old(out)@ + entry_bytes(e@),
{
    proof {
        lemma_pow256_facts();
    }
    let kind: u8 = match e.kind {
        EntryKind::File => 0,
        EntryKind::Directory => 1,
        EntryKind::Symlink => 2,
    };
    out.push(kind);
    push_le(out, e.size, 8);
    push_le(out, e.name.len() as u64, 4);
    append_bytes(out, &e.name);
    assert(final(out)@ =~= old(out)@ + entry_bytes(e@));
}

/// The frame of a listing. Fails where it has 2^32 entries or more, or a
/// name of 2^32 bytes or more.
pub fn encode_listing(entries: &Vec<ListedEntry>) -> (r: Result<Vec<u8>, Error>)
    ensures
        r is Ok <==> entries@.len() < 0x1_0000_0000
            && forall|i: int| 0 <= i < entries@.len() ==> (#[trigger] entries@[i]).name@.len() < 0x1_0000_0000,
        r matches Ok(b) ==> b@ == listing_bytes(listing_view(entries@)),
        r matches Err(e) ==> e@ is InvalidArgument,
{
    proof {
        lemma_pow256_facts();
    }
    if entries.len() as u64 >= 0x1_0000_0000u64 {
        return Err(Error::InvalidArgument(String::from_str("too many entries for the protocol")));
    }
    let ghost all = listing_view(entries@);
    let mut out: Vec<u8> = Vec::new();
    out.push(PROTOCOL_VERSION);
    out.push(RESP_LISTING);
    push_le(&mut out, entries.len() as u64, 4);
    let ghost head = out@;
    assert(all.subrange(0, all.len() as int) =~= all);
    let mut i: usize = 0;
    while i < entries.len()
        invariant
            i <= entries@.len(),
            all == listing_view(entries@),
            head == seq![PROTOCOL_VERSION, RESP_LISTING] + le_bytes(entries@.len() as nat, 4),
            out@ + entries_bytes(all.subrange(i as int, all.len() as int)) == head + entries_bytes(all),
            forall|k: int| 0 <= k < i ==> (#[trigger] entries@[k]).name@.len() < 0x1_0000_0000,
        decreases entries@.len() - i,
    {
        let e = &entries[i];
        if e.name.len() as u64 >= 0x1_0000_0000u64 {
            return Err(Error::InvalidArgument(String::from_str("name too long for the protocol")));
        }
        let ghost rest = all.subrange(i as int, all.len() as int);
        assert(rest[0] == e@);
        assert(rest.drop_first() =~= all.subrange(i as int + 1, all.len() as int));
        push_entry(&mut out, e);
        assert(out@ + entries_bytes(all.subrange(i as int + 1, all.len() as int)) =~= head + entries_bytes(all));
        i = i + 1;
    }
    assert(all.subrange(all.len() as int, all.len() as int) =~= Seq::<ListedView>::empty());
    assert(out@ =~= listing_bytes(all));
    Ok(out)
}

/// Reads the entry at `at`; gives it and the offset after it.
fn read_entry(b: &[u8], at: usize) -> (r: Option<(ListedEntry, usize)>)
    requires
        at <= b@.len(),
    ensures
        match parse_entry(b@.subrange(at as int, b@.len() as int)) {
            None => r is None,
            Some((e, used)) => r matches Some((x, next)) && x@ == e && next == at + used,
        },
{
    let ghost sub = b@.subrange(at as int, b@.len() as int);
    let len = b.len();
    if len - at < 13 || b[at] > 2 {
        return None;
    }
    let size = read_le(b, at + 1, 8);
    let n = read_le(b, at + 9, 4);
    assert(sub.subrange(1, 9) =~= b@.subrange(at + 1, at + 9));
    assert(sub.subrange(9, 13) =~= b@.subrange(at + 9, at + 13));
    if n > (len - at - 13) as u64 {
        return None;
    }
    let name = copy_bytes(b, at + 13, n as usize);
    assert(sub.subrange(13, 13 + n) =~= b@.subrange(at + 13, at + 13 + n));
    let kind = if b[at] == 0 {
        EntryKind::File
    } else if b[at] == 1 {
        EntryKind::Directory
    } else {
        EntryKind::Symlink
    };
    Some((ListedEntry { name, kind, size }, at + 13 + n as usize))
}

/// The listing a frame holds; a protocol error where the frame is of
/// another version or kind, or cut short.
pub fn decode_listing(b: &[u8]) -> (r: Result<Vec<ListedEntry>, Error>)
    ensures
        r is Ok <==> parse_listing(b@) is Some,
        r matches Ok(v) ==> parse_listing(b@) == Some(listing_view(v@)),
        r matches Err(e) ==> e@ is Protocol,
{
    let len = b.len();
    if len < 6 || b[0] != PROTOCOL_VERSION || b[1] != RESP_LISTING {
        return Err(Error::Protocol(String::from_str("not a listing frame")));
    }
    let count = read_le(b, 2, 4);
    let ghost whole = b@.subrange(6, b@.len() as int);
    let mut out: Vec<ListedEntry> = Vec::new();
    let mut at: usize = 6;
    let mut i: u64 = 0;
    assert(listing_view(out@) =~= Seq::<ListedView>::empty());
    assert(b@.subrange(6, b@.len() as int) =~= whole);
    while i < count
        invariant
            i <= count,
            6 <= at <= b@.len(),
            len == b@.len(),
            count == field(b@, 2, 4),
            whole == b@.subrange(6, b@.len() as int),
            forall|rest: Seq<ListedView>|
                #[trigger] parse_entries(b@.subrange(at as int, b@.len() as int), (count - i) as nat) == Some(rest)
                ==> parse_entries(whole, count as nat) == Some(listing_view(out@) + rest),
            parse_entries(b@.subrange(at as int, b@.len() as int), (count - i) as nat) is None
                ==> parse_entries(whole, count as nat) is None,
        decreases count - i,
    {
        let ghost sub = b@.subrange(at as int, b@.len() as int);
        let ghost m = (count - i) as nat;
        match read_entry(b, at) {
            None => {
                assert(parse_entries(sub, m) is None);
                return Err(Error::Protocol(String::from_str("truncated listing")));
            },
            Some((e, next)) => {
                let ghost used = next - at;
                let ghost after = b@.subrange(next as int, b@.len() as int);
                assert(sub.subrange(used, sub.len() as int) =~= after);
                let ghost before_out = listing_view(out@);
                out.push(e);
                assert(listing_view(out@) =~= before_out.push(e@));
                assert forall|rest: Seq<ListedView>|
                    #[trigger] parse_entries(after, (m - 1) as nat) == Some(rest)
                    implies parse_entries(whole, count as nat) == Some(listing_view(out@) + rest) by {
                    assert(parse_entries(sub, m) == Some(seq![e@] + rest));
                    assert(before_out + (seq![e@] + rest) =~= listing_view(out@) + rest);
                }
                at = next;
                i = i + 1;
            },
        }
    }
    assert(parse_entries(b@.subrange(at as int, b@.len() as int), 0) == Some(Seq::<ListedView>::empty()));
    assert(listing_view(out@) + Seq::<ListedView>::empty() =~= listing_view(out@));
    Ok(out)
}

proof fn lemma_entry_round_trip(e: ListedView, t: Seq<u8>)
    requires
        e.name.len() < 0x1_0000_0000,
    ensures
        parse_entry(entry_bytes(e) + t) == Some((e, entry_bytes(e).len() as int)),
        entry_bytes(e).len() == 13 + e.name.len(),
{
    lemma_pow256_facts();
    let b = entry_bytes(e) + t;
    lemma_le_bytes_len(e.size as nat, 8);
    lemma_le_bytes_len(e.name.len() as nat, 4);
    lemma_le_round_trip(e.size as nat, 8);
    lemma_le_round_trip(e.name.len() as nat, 4);
    assert(b.subrange(1, 9) =~= le_bytes(e.size as nat, 8));
    assert(b.subrange(9, 13) =~= le_bytes(e.name.len() as nat, 4));
    assert(b.subrange(13, 13 + e.name.len() as int) =~= e.name);
}

proof fn lemma_entries_round_trip(es: Seq<ListedView>, t: Seq<u8>)
    requires
        forall|i: int| 0 <= i < es.len() ==> (#[trigger] es[i]).name.len() < 0x1_0000_0000,
    ensures
        parse_entries(entries_bytes(es) + t, es.len()) == Some(es),
    decreases es.len(),
{
    if es.len() > 0 {
        let rest = es.drop_first();
        let tail = entries_bytes(rest) + t;
        assert(entries_bytes(es) + t =~= entry_bytes(es[0]) + tail);
        lemma_entry_round_trip(es[0], tail);
        let b = entry_bytes(es[0]) + tail;
        let used = entry_bytes(es[0]).len() as int;
        assert(b.subrange(used, b.len() as int) =~= tail);
        assert forall|i: int| 0 <= i < rest.len() implies (#[trigger] rest[i]).name.len() < 0x1_0000_0000 by {
            assert(rest[i] == es[i + 1]);
        }
        lemma_entries_round_trip(rest, t);
        assert(seq![es[0]] + rest =~= es);
    }
}

/// A listing read back from its own frame is the same listing.
pub proof fn lemma_listing_round_trip(es: Seq<ListedView>)
    requires
        es.len() < 0x1_0000_0000,
        forall|i: int| 0 <= i < es.len() ==> (#[trigger] es[i]).name.len() < 0x1_0000_0000,
    ensures
        parse_listing(listing_bytes(es)) == Some(es),
{
    lemma_pow256_facts();
    let b = listing_bytes(es);
    lemma_le_bytes_len(es.len() as nat, 4);
    lemma_le_round_trip(es.len() as nat, 4);
    assert(b.subrange(2, 6) =~= le_bytes(es.len() as nat, 4));
    assert(b.subrange(6, b.len() as int) =~= entries_bytes(es) + Seq::<u8>::empty());
    lemma_entries_round_trip(es, Seq::<u8>::empty());
}

} // verus!
