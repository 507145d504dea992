use vstd::prelude::*;
use crate::path::{FsPath, PathView, rendered};

verus! {

/// What can go wrong in a copy operation.
#[derive(Debug, Clone, PartialEq, Eq)]
pub enum Error {
    Io(String),
    Path(String),
    FileNotFound(FsPath),
    DirectoryNotFound(FsPath),
    PermissionDenied(FsPath),
    DestinationExists(FsPath),
    InvalidArgument(String),
    Network(String),
    Timeout(String),
    Encoding(String),
    FileTooLarge(FsPath, u64),
    DiskFull(FsPath, u64, u64),
    ReadError(FsPath, u64),
    WriteError(FsPath, u64),
    Interrupted(String),
    Server(String),
    Client(String),
    Protocol(String),
    DeltaCopy(String),
    Unsupported(String),
    Configuration(String),
    Unknown(String),
}

/// An error as Verus sees it: messages as text, paths as path views.
pub enum ErrorView {
    Io(Seq<char>),
    Path(Seq<char>),
    FileNotFound(PathView),
    DirectoryNotFound(PathView),
    PermissionDenied(PathView),
    DestinationExists(PathView),
    InvalidArgument(Seq<char>),
    Network(Seq<char>),
    Timeout(Seq<char>),
    Encoding(Seq<char>),
    FileTooLarge(PathView, u64),
    DiskFull(PathView, u64, u64),
    ReadError(PathView, u64),
    WriteError(PathView, u64),
    Interrupted(Seq<char>),
    Server(Seq<char>),
    Client(Seq<char>),
    Protocol(Seq<char>),
    DeltaCopy(Seq<char>),
    Unsupported(Seq<char>),
    Configuration(Seq<char>),
    Unknown(Seq<char>),
}

impl View for Error {
    type V = ErrorView;

    open spec fn view(&self) -> ErrorView {
        match self {
            Error::Io(m) => ErrorView::Io(m@),
            Error::Path(m) => ErrorView::Path(m@),
            Error::FileNotFound(p) => ErrorView::FileNotFound(p@),
            Error::DirectoryNotFound(p) => ErrorView::DirectoryNotFound(p@),
            Error::PermissionDenied(p) => ErrorView::PermissionDenied(p@),
            Error::DestinationExists(p) => ErrorView::DestinationExists(p@),
            Error::InvalidArgument(m) => ErrorView::InvalidArgument(m@),
            Error::Network(m) => ErrorView::Network(m@),
            Error::Timeout(m) => ErrorView::Timeout(m@),
            Error::Encoding(m) => ErrorView::Encoding(m@),
            Error::FileTooLarge(p, n) => ErrorView::FileTooLarge(p@, *n),
            Error::DiskFull(p, a, b) => ErrorView::DiskFull(p@, *a, *b),
            Error::ReadError(p, n) => ErrorView::ReadError(p@, *n),
            Error::WriteError(p, n) => ErrorView::WriteError(p@, *n),
            Error::Interrupted(m) => ErrorView::Interrupted(m@),
            Error::Server(m) => ErrorView::Server(m@),
            Error::Client(m) => ErrorView::Client(m@),
            Error::Protocol(m) => ErrorView::Protocol(m@),
            Error::DeltaCopy(m) => ErrorView::DeltaCopy(m@),
            Error::Unsupported(m) => ErrorView::Unsupported(m@),
            Error::Configuration(m) => ErrorView::Configuration(m@),
            Error::Unknown(m) => ErrorView::Unknown(m@),
        }
    }
}

/// The decimal digit `d`.
pub open spec fn digit_char(d: nat) -> char {
    if d == 0 { '0' }
    else if d == 1 { '1' }
    else if d == 2 { '2' }
    else if d == 3 { '3' }
    else if d == 4 { '4' }
    else if d == 5 { '5' }
    else if d == 6 { '6' }
    else if d == 7 { '7' }
    else if d == 8 { '8' }
    else { '9' }
}

/// The decimal digits of `n`, most significant first, without leading zeros.
pub open spec fn digits(n: nat) -> Seq<char>
    decreases n,
{
    if n < 10 {
        seq![digit_char(n)]
    } else {
        digits(n / 10) + seq![digit_char(n % 10)]
    }
}

/// The decimal text of `n`, with a `-` before a negative number.
pub open spec fn decimal(n: int) -> Seq<char> {
    if n < 0 {
        seq!['-'] + digits((-n) as nat)
    } else {
        digits(n as nat)
    }
}

fn digit_text(d: u64) -> (r: &'static str)
    requires
        d < 10,
    ensures
        r@ == seq![digit_char(d as nat)],
{
    proof {
        reveal_strlit("0");
        reveal_strlit("1");
        reveal_strlit("2");
        reveal_strlit("3");
        reveal_strlit("4");
        reveal_strlit("5");
        reveal_strlit("6");
        reveal_strlit("7");
        reveal_strlit("8");
        reveal_strlit("9");
    }
    if d == 0 { "0" }
    else if d == 1 { "1" }
    else if d == 2 { "2" }
    else if d == 3 { "3" }
    else if d == 4 { "4" }
    else if d == 5 { "5" }
    else if d == 6 { "6" }
    else if d == 7 { "7" }
    else if d == 8 { "8" }
    else { "9" }
}

fn append_digits(s: &mut String, n: u64)
    ensures
        final(s)@ == old(s)@ + digits(n as nat),
    decreases n,
{
    if n >= 10 {
        append_digits(s, n / 10);
    }
    s.append(digit_text(n % 10));
    assert(final(s)@ =~= old(s)@ + digits(n as nat));
}

/// Appends the decimal text of `n` to `s`.
pub fn append_decimal(s: &mut String, n: i64)
    ensures
        final(s)@ == old(s)@ + decimal(n as int),
{
    if n < 0 {
        proof {
            reveal_strlit("-");
        }
        s.append("-");
        let m: u64 = if n == i64::MIN { 0x8000_0000_0000_0000u64 } else { (-n) as u64 };
        append_digits(s, m);
        assert(final(s)@ =~= old(s)@ + decimal(n as int));
    } else {
        append_digits(s, n as u64);
    }
}

/// `prefix`, then the text of `path`.
pub fn describe(prefix: &str, path: &FsPath) -> (r: String)
    ensures
        r@ == prefix@ + rendered(path@),
{
    let mut s = String::from_str(prefix);
    let t = path.render();
    s.append(t.as_str());
    s
}

/// `prefix`, the text of `path`, then `suffix`.
fn describe_around(prefix: &str, path: &FsPath, suffix: &str) -> (r: String)
    ensures
        r@ == prefix@ + rendered(path@) + suffix@,
{
    let mut s = describe(prefix, path);
    s.append(suffix);
    s
}

/// The path named in an error whose path was not given.
pub open spec fn unknown_path() -> PathView {
    (false, seq!["<unknown>"@])
}

/// The error that a platform or engine error code stands for, about path `p`.
pub open spec fn error_for_code(code: i32, p: PathView) -> ErrorView {
    let r = rendered(p);
    if code == 2 { ErrorView::FileNotFound(p) }
    else if code == 3 { ErrorView::DirectoryNotFound(p) }
    else if code == 5 { ErrorView::PermissionDenied(p) }
    else if code == 8 { ErrorView::DiskFull(p, 0, 0) }
    else if code == 13 { ErrorView::InvalidArgument("Invalid data for "@ + r) }
    else if code == 32 { ErrorView::Interrupted("Operation on "@ + r + " was interrupted"@) }
    else if code == 80 { ErrorView::DestinationExists(p) }
    else if code == 87 { ErrorView::InvalidArgument("Invalid parameter for "@ + r) }
    else if code == 112 { ErrorView::DiskFull(p, 0, 0) }
    else if code == 123 { ErrorView::InvalidArgument("Invalid syntax for "@ + r) }
    else if code == 1392 { ErrorView::FileTooLarge(p, 0) }
    else if code == 10053 { ErrorView::Network("Connection aborted for "@ + r) }
    else if code == 10054 { ErrorView::Network("Connection reset for "@ + r) }
    else if code == 10060 { ErrorView::Timeout("Connection timed out for "@ + r) }
    else if code == 10061 { ErrorView::Network("Connection refused for "@ + r) }
    else if code == 10064 { ErrorView::Network("Host is down for "@ + r) }
    else if code == 10065 { ErrorView::Network("No route to host for "@ + r) }
    else if code == 0x1000 { ErrorView::Configuration("Invalid configuration for "@ + r) }
    else if code == 0x1001 { ErrorView::Server("Server error for "@ + r) }
    else if code == 0x1002 { ErrorView::Client("Client error for "@ + r) }
    else if code == 0x1003 { ErrorView::DeltaCopy("Delta copy error for "@ + r) }
    else if code == 0x1004 { ErrorView::Unsupported("Unsupported operation for "@ + r) }
    else { ErrorView::Unknown("Unknown error code "@ + decimal(code as int) + " for "@ + r) }
}

/// The error for a platform or engine error code, about `path` (or about
/// `<unknown>` where no path is given).
pub fn from_error_code(code: i32, path: Option<&FsPath>) -> (r: Error)
    ensures
        path matches Some(p) ==> r@ == error_for_code(code, p@),
        path is None ==> r@ == error_for_code(code, unknown_path()),
{
    let unknown = FsPath::relative(vec![String::from_str("<unknown>")]);
    assert(unknown@.1 =~= seq!["<unknown>"@]);
    let p: &FsPath = match path {
        Some(p) => p,
        None => &unknown,
    };
    if code == 2 { Error::FileNotFound(p.duplicate()) }
    else if code == 3 { Error::DirectoryNotFound(p.duplicate()) }
    else if code == 5 { Error::PermissionDenied(p.duplicate()) }
    else if code == 8 { Error::DiskFull(p.duplicate(), 0, 0) }
    else if code == 13 { Error::InvalidArgument(describe("Invalid data for ", p)) }
    else if code == 32 { Error::Interrupted(describe_around("Operation on ", p, " was interrupted")) }
    else if code == 80 { Error::DestinationExists(p.duplicate()) }
    else if code == 87 { Error::InvalidArgument(describe("Invalid parameter for ", p)) }
    else if code == 112 { Error::DiskFull(p.duplicate(), 0, 0) }
    else if code == 123 { Error::InvalidArgument(describe("Invalid syntax for ", p)) }
    else if code == 1392 { Error::FileTooLarge(p.duplicate(), 0) }
    else if code == 10053 { Error::Network(describe("Connection aborted for ", p)) }
    else if code == 10054 { Error::Network(describe("Connection reset for ", p)) }
    else if code == 10060 { Error::Timeout(describe("Connection timed out for ", p)) }
    else if code == 10061 { Error::Network(describe("Connection refused for ", p)) }
    else if code == 10064 { Error::Network(describe("Host is down for ", p)) }
    else if code == 10065 { Error::Network(describe("No route to host for ", p)) }
    else if code == 0x1000 { Error::Configuration(describe("Invalid configuration for ", p)) }
    else if code == 0x1001 { Error::Server(describe("Server error for ", p)) }
    else if code == 0x1002 { Error::Client(describe("Client error for ", p)) }
    else if code == 0x1003 { Error::DeltaCopy(describe("Delta copy error for ", p)) }
    else if code == 0x1004 { Error::Unsupported(describe("Unsupported operation for ", p)) }
    else {
        let mut m = String::from_str("Unknown error code ");
        append_decimal(&mut m, code as i64);
        m.append(" for ");
        let t = p.render();
        m.append(t.as_str());
        Error::Unknown(m)
    }
}

} // verus!
