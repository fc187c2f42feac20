//! The client side of the guest agent protocol: where requests go, what
//! their bodies hold, and the result of a remote command.
use vstd::prelude::*;
use crate::manager::opt_text;
use crate::text::{decimal, decimal_text, digit_char};

verus! {

/// Error type of `serde_json`, which its encoder may return.
#[verifier::external_type_specification]
#[verifier::external_body]
pub struct ExJsonError(serde_json::Error);

/// The lower-case hexadecimal digit `d`.
pub open spec fn lower_hex_char(d: nat) -> char {
    if d < 10 {
        digit_char(d)
    } else if d == 10 { 'a' }
    else if d == 11 { 'b' }
    else if d == 12 { 'c' }
    else if d == 13 { 'd' }
    else if d == 14 { 'e' }
    else { 'f' }
}

/// How a JSON string literal writes the character `c`: quote and backslash
/// escaped, the short escapes for backspace, tab, line feed, form feed and
/// carriage return, `\u00xx` for the other control characters, and any
/// other character as it is.
pub open spec fn json_char_escape(c: char) -> Seq<char> {
    let u = c as u32;
    if c == '"' {
        seq!['\\', '"']
    } else if c == '\\' {
        seq!['\\', '\\']
    } else if u == 0x8 {
        seq!['\\', 'b']
    } else if u == 0x9 {
        seq!['\\', 't']
    } else if u == 0xa {
        seq!['\\', 'n']
    } else if u == 0xc {
        seq!['\\', 'f']
    } else if u == 0xd {
        seq!['\\', 'r']
    } else if u < 0x20 {
        seq!['\\', 'u', '0', '0', lower_hex_char((u / 16) as nat), lower_hex_char((u % 16) as nat)]
    } else {
        seq![c]
    }
}

/// The characters of `s`, each written as a JSON string literal writes it.
pub open spec fn json_escaped(s: Seq<char>) -> Seq<char>
    decreases s.len(),
{
    if s.len() == 0 {
        Seq::<char>::empty()
    } else {
        json_escaped(s.drop_last()) + json_char_escape(s.last())
    }
}

/// The JSON string literal that encodes `s`, quotes included.
pub open spec fn json_string_spec(s: Seq<char>) -> Seq<char> {
    seq!['"'] + json_escaped(s) + seq!['"']
}

/// Relies on `serde_json::to_string` on a string slice: it writes into a
/// vector, which cannot fail, and gives the JSON string literal of the slice.
#[verifier::external_body]
fn encode_json_string(s: &str) -> (r: Result<String, serde_json::Error>)
    ensures
        r is Ok,
        r->Ok_0@ == json_string_spec(s@),
{
    serde_json::to_string(s)
}

/// The last component of a path, as `std::path::Path::file_name` gives it.
pub uninterp spec fn file_name_of(path: Seq<char>) -> Option<Seq<char>>;

/// Relies on `std::path::Path::file_name`: the final component of a path
/// that is given as text, if it has one; it depends on the text alone.
#[verifier::external_body]
fn path_file_name(path: &str) -> (r: Option<String>)
    ensures
        opt_text(r) == file_name_of(path@),
{
    std::path::Path::new(path).file_name().and_then(|n| n.to_str()).map(|n| n.to_string())
}

/// Subcommands that talk to the agent of a guest.
#[derive(Debug)]
pub enum ClientSub {
    /// Send a local file to the guest.
    Upload { src: String },
    /// Run a shell command in the guest.
    Exec { command: String },
}

/// What the agent reports of a command that it ran.
#[derive(Debug)]
pub struct ExecRes {
    pub success: String,
    pub stdout: String,
    pub stderr: String,
    pub error: Option<String>,
}

/// Why a request to a guest could not be formed.
#[derive(Debug, Clone, Copy, PartialEq, Eq, Structural)]
pub enum ClientError {
    /// The path of a file to upload names no file.
    NoFileName,
}

/// Base address of the agent of the guest forwarded to `port`.
pub open spec fn agent_base_spec(port: u16) -> Seq<char> {
    "http://127.0.0.1:"@ + decimal(port as nat)
}

/// Where a file called `name` is uploaded to.
pub open spec fn upload_url_spec(port: u16, name: Seq<char>) -> Seq<char> {
    agent_base_spec(port) + "/upload/"@ + name
}

/// Where commands are sent.
pub open spec fn exec_url_spec(port: u16) -> Seq<char> {
    agent_base_spec(port) + "/exec"@
}

/// The body of a request that runs `command`.
pub open spec fn exec_body_spec(command: Seq<char>) -> Seq<char> {
    "{\"command\":"@ + json_string_spec(command) + "}"@
}

fn agent_base(port: u16) -> (r: String)
    ensures
        r@ == agent_base_spec(port),
{
    let mut r = String::from_str("http://127.0.0.1:");
    let d = decimal_text(port);
    r.append(d.as_str());
    r
}

/// The address that a file called `name` is uploaded to.
pub fn upload_url(port: u16, name: &str) -> (r: String)
    ensures
        r@ == upload_url_spec(port, name@),
{
    let mut r = agent_base(port);
    r.append("/upload/");
    r.append(name);
    r
}

/// The address of a local file at `src` once uploaded: it keeps the file's name.
pub fn upload_target(src: &str, port: u16) -> (r: Result<String, ClientError>)
    ensures
        file_name_of(src@) is None ==> r == Err::<String, ClientError>(ClientError::NoFileName),
        file_name_of(src@) is Some ==> r is Ok && r->Ok_0@ == upload_url_spec(port, file_name_of(src@)->Some_0),
{
    match path_file_name(src) {
        Some(name) => Ok(upload_url(port, name.as_str())),
        None => Err(ClientError::NoFileName),
    }
}

/// The address that commands are sent to.
pub fn exec_url(port: u16) -> (r: String)
    ensures
        r@ == exec_url_spec(port),
{
    let mut r = agent_base(port);
    r.append("/exec");
    r
}

/// The JSON body of a request that runs `command` in a guest.
pub fn exec_request_body(command: &str) -> (r: String)
    ensures
        r@ == exec_body_spec(command@),
{
    let mut body = String::from_str("{\"command\":");
    match encode_json_string(command) {
        Ok(encoded) => body.append(encoded.as_str()),
        Err(_) => {},
    }
    body.append("}");
    body
}

} // verus!
