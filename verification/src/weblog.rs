//! Composition of traffic-log lines.
//!
//! The traffic log is an append-only text file, one line per logged access:
//! a timestamp, an optional client address in parentheses, and a
//! description. Writing the file is I/O and stays outside; what is composed
//! into the line, and which accesses are logged at all, is decided here.

use vstd::prelude::*;
use vstd::string::StringExecFns;
use vstd::string::StringSliceAdditionalSpecFns;

verus! {

/// Whether an access to `path` is logged: its byte suffix is `.html`
/// (bytes 46, 104, 116, 109, 108).
pub open spec fn logged_path(b: Seq<u8>) -> bool {
    &&& b.len() >= 5
    &&& b[b.len() - 5] == 46u8
    &&& b[b.len() - 4] == 104u8
    &&& b[b.len() - 3] == 116u8
    &&& b[b.len() - 2] == 109u8
    &&& b[b.len() - 1] == 108u8
}

/// Decides whether an access to `path` is logged: only accesses to
/// recognized documents (`.html`) are.
pub fn should_log_path(path: &str) -> (r: bool)
    ensures
        r == logged_path(path.spec_bytes()),
{
    let bytes = path.as_bytes();
    let n = bytes.len();
    if n < 5 {
        return false;
    }
    bytes[n - 5] == 46 && bytes[n - 4] == 104 && bytes[n - 3] == 116 && bytes[n - 2] == 109
        && bytes[n - 1] == 108
}

/// The optional client-address note of a log line: ` (addr)`, or nothing.
pub open spec fn remote_note(remote: Option<&str>) -> Seq<char> {
    match remote {
        Some(addr) => " ("@ + addr@ + ")"@,
        None => Seq::empty(),
    }
}

/// Composes one traffic-log line: timestamp, the optional client address
/// in parentheses, ` - `, the access description, and a newline.
pub fn compose_log_line(timestamp: &str, remote: Option<&str>, text: &str) -> (r: String)
    ensures
        r@ == timestamp@ + remote_note(remote) + " - "@ + text@ + "\n"@,
{
    let mut out = timestamp.to_owned();
    match remote {
        Some(addr) => {
            out.append(" (");
            out.append(addr);
            out.append(")");
        },
        None => {},
    }
    out.append(" - ");
    out.append(text);
    out.append("\n");
    proof {
        assert(out@ =~= timestamp@ + remote_note(remote) + " - "@ + text@ + "\n"@);
    }
    out
}

/// The description logged for an access to a static document.
pub fn access_note(path: &str) -> (r: String)
    ensures
        r@ == "Accessing "@ + path@,
{
    let mut out = "Accessing ".to_owned();
    out.append(path);
    out
}

} // verus!
