use crate::chars::same_text;
use crate::text::to_chars;
use vstd::prelude::*;
use vstd::string::*;
use vstd::utf8::*;

verus! {

/// Whether the byte `b` is written as it is in an address: a letter, a digit,
/// `-`, `.`, `_` or `~`.
pub open spec fn is_unreserved(b: u8) -> bool {
    ||| 0x30 <= b <= 0x39
    ||| 0x41 <= b <= 0x5A
    ||| 0x61 <= b <= 0x7A
    ||| b == 0x2D
    ||| b == 0x2E
    ||| b == 0x5F
    ||| b == 0x7E
}

/// The upper-case hexadecimal digit of `n`.
pub open spec fn hex_digit_of(n: int) -> char {
    if n == 0 {
        '0'
    } else if n == 1 {
        '1'
    } else if n == 2 {
        '2'
    } else if n == 3 {
        '3'
    } else if n == 4 {
        '4'
    } else if n == 5 {
        '5'
    } else if n == 6 {
        '6'
    } else if n == 7 {
        '7'
    } else if n == 8 {
        '8'
    } else if n == 9 {
        '9'
    } else if n == 10 {
        'A'
    } else if n == 11 {
        'B'
    } else if n == 12 {
        'C'
    } else if n == 13 {
        'D'
    } else if n == 14 {
        'E'
    } else {
        'F'
    }
}

/// One byte as it stands in an address: itself where it is unreserved, else
/// `%` and its two hexadecimal digits.
pub open spec fn encoded_byte(b: u8) -> Seq<char> {
    if is_unreserved(b) {
        seq![b as char]
    } else {
        seq!['%', hex_digit_of(b as int / 16), hex_digit_of(b as int % 16)]
    }
}

/// The bytes percent-encoded, one after the other.
pub open spec fn percent_encoded(bytes: Seq<u8>) -> Seq<char>
    decreases bytes.len(),
{
    if bytes.len() == 0 {
        seq![]
    } else {
        percent_encoded(bytes.drop_last()) + encoded_byte(bytes.last())
    }
}

/// The address that opens the note `filename` of the vault `vault`.
pub open spec fn obsidian_uri_of(vault: Seq<char>, filename: Seq<char>) -> Seq<char> {
    "obsidian://open?vault="@ + percent_encoded(encode_utf8(vault)) + "&file="@ + percent_encoded(
        encode_utf8(filename),
    )
}

/// Calls `urlencoding::encode`. Trusted: that it writes every byte of the
/// UTF-8 encoding of `data` as itself where the byte is a letter, a digit,
/// `-`, `.`, `_` or `~`, and as `%` with two upper-case hexadecimal digits
/// otherwise.
#[verifier::external_body]
pub(crate) fn percent_encode(data: &str) -> (r: String)
    ensures
        r@ == percent_encoded(encode_utf8(data@)),
{
    urlencoding::encode(data).into_owned()
}

/// The address that opens the note `filename` of the vault `vault` in the
/// note-taking application.
pub fn obsidian_uri(vault: &str, filename: &str) -> (r: String)
    ensures
        r@ == obsidian_uri_of(vault@, filename@),
{
    let mut out = String::from_str("obsidian://open?vault=");
    out.append(percent_encode(vault).as_str());
    out.append("&file=");
    out.append(percent_encode(filename).as_str());
    out
}

/// The kind of system that the application runs on.
#[derive(Clone, Copy, Debug, PartialEq, Eq, Structural)]
pub enum Platform {
    Windows,
    MacOs,
    Linux,
    Other,
}

/// The command, program first, that opens `uri` on `platform`; none where the
/// platform is not supported.
pub open spec fn open_command_of(platform: Platform, uri: Seq<char>) -> Option<Seq<Seq<char>>> {
    match platform {
        Platform::Windows => Some(seq!["cmd"@, "/C"@, "start "@ + uri]),
        Platform::MacOs => Some(seq!["open"@, uri]),
        Platform::Linux => Some(seq!["xdg-open"@, uri]),
        Platform::Other => None,
    }
}

/// The command, program first, that opens `uri` on `platform`.
pub fn open_command(platform: Platform, uri: &str) -> (r: Option<Vec<String>>)
    ensures
        match r {
            Some(command) => open_command_of(platform, uri@) == Some(command.deep_view()),
            None => open_command_of(platform, uri@) is None,
        },
{
    let mut command: Vec<String> = Vec::new();
    match platform {
        Platform::Windows => {
            command.push(String::from_str("cmd"));
            command.push(String::from_str("/C"));
            let mut start = String::from_str("start ");
            start.append(uri);
            command.push(start);
            assert(command.deep_view() =~= seq!["cmd"@, "/C"@, "start "@ + uri@]);
            Some(command)
        },
        Platform::MacOs => {
            command.push(String::from_str("open"));
            command.push(String::from_str(uri));
            assert(command.deep_view() =~= seq!["open"@, uri@]);
            Some(command)
        },
        Platform::Linux => {
            command.push(String::from_str("xdg-open"));
            command.push(String::from_str(uri));
            assert(command.deep_view() =~= seq!["xdg-open"@, uri@]);
            Some(command)
        },
        Platform::Other => None,
    }
}

/// The terminal code of the colour named `color`, for the three colours that
/// have one.
pub open spec fn colour_code_of(color: Seq<char>) -> Option<Seq<char>> {
    if color == "red"@ {
        Some("\x1b[31m"@)
    } else if color == "green"@ {
        Some("\x1b[32m"@)
    } else if color == "blue"@ {
        Some("\x1b[34m"@)
    } else {
        None
    }
}

/// The log line for `message`: the message, in its colour where the colour is
/// known, behind a blank line, a tab and a loudspeaker.
pub open spec fn log_line_of(message: Seq<char>, color: Seq<char>) -> Seq<char> {
    "\n\t\u{1F4E2}  "@ + (match colour_code_of(color) {
        Some(code) => code + message + "\x1b[0m"@,
        None => message,
    }) + "\n"@
}

/// The log line for `message` in the colour named `color`.
pub fn log_line(message: &str, color: &str) -> (r: String)
    ensures
        r@ == log_line_of(message@, color@),
{
    let name = to_chars(color);
    let code = if same_text(&name, &to_chars("red")) {
        Some("\x1b[31m")
    } else if same_text(&name, &to_chars("green")) {
        Some("\x1b[32m")
    } else if same_text(&name, &to_chars("blue")) {
        Some("\x1b[34m")
    } else {
        None
    };
    let mut out = String::from_str("\n\t\u{1F4E2}  ");
    match code {
        Some(code) => {
            out.append(code);
            out.append(message);
            out.append("\x1b[0m");
        },
        None => {
            out.append(message);
        },
    }
    out.append("\n");
    assert(out@ =~= log_line_of(message@, color@));
    out
}

} // verus!
