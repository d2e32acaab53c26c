use vstd::prelude::*;

use crate::codec::has_at;
use crate::text::{chars_of, trim, trimmed};

verus! {

/// What a line typed at the client asks for.
pub enum Command {
    /// Send this text to the server.
    Send(String),
    /// Disconnect.
    Leave,
    /// Nothing to do: an empty line, or `send` with nothing after it.
    Ignore,
    /// Anything else: the client reminds the operator of the commands.
    Unknown,
}

/// What `str::to_lowercase` makes of a sequence of characters.
pub uninterp spec fn lower_of(s: Seq<char>) -> Seq<char>;

/// Relies on `str::to_lowercase`: the lower-case form of `s`, which depends on its
/// characters alone.
#[verifier::external_body]
fn lowercase(s: &str) -> (r: String)
    ensures
        r@ == lower_of(s@),
{
    s.to_lowercase()
}

pub open spec fn leave_word() -> Seq<char> {
    seq!['l', 'e', 'a', 'v', 'e']
}

pub open spec fn send_prefix() -> Seq<char> {
    seq!['s', 'e', 'n', 'd', ' ']
}

/// The command that a trimmed line `input` asks for, given its lower-case form.
pub open spec fn is_command(r: Command, input: Seq<char>, lowered: Seq<char>) -> bool {
    if lowered == leave_word() {
        r is Leave
    } else if input.len() >= 5 && input.subrange(0, 5) == send_prefix() {
        let text = trimmed(input.subrange(5, input.len() as int));
        if text.len() > 0 {
            r is Send && r->Send_0@ == text
        } else {
            r is Ignore
        }
    } else if input.len() == 0 {
        r is Ignore
    } else {
        r is Unknown
    }
}

/// Decides the command of a trimmed line `input` whose lower-case form is `lowered`.
pub fn classify(input: &str, lowered: &str) -> (r: Command)
    ensures
        is_command(r, input@, lowered@),
{
    let low = chars_of(lowered);
    let leave = vec!['l', 'e', 'a', 'v', 'e'];
    assert(leave@ =~= leave_word());
    if low.len() == 5 && has_at(&low, 0, &leave) {
        assert(low@.subrange(0, 5) =~= low@);
        return Command::Leave;
    }
    assert(lowered@ != leave_word()) by {
        if lowered@ == leave_word() {
            assert(low@.subrange(0, 5) =~= low@);
        }
    }
    let cs = chars_of(input);
    let send = vec!['s', 'e', 'n', 'd', ' '];
    assert(send@ =~= send_prefix());
    if has_at(&cs, 0, &send) {
        let text = trim(input.substring_char(5, cs.len()));
        if text.unicode_len() > 0 {
            Command::Send(text)
        } else {
            Command::Ignore
        }
    } else if cs.len() == 0 {
        Command::Ignore
    } else {
        Command::Unknown
    }
}

/// Reads one line typed at the client: it is trimmed, then `leave` in any case
/// disconnects and `send <text>` sends the trimmed text.
pub fn parse_command(line: &str) -> (r: Command)
    ensures
        is_command(r, trimmed(line@), lower_of(trimmed(line@))),
{
    let input = trim(line);
    let lowered = lowercase(input.as_str());
    classify(input.as_str(), lowered.as_str())
}

/// The normalised text of the URL that `url::Url::parse` reads from `s`, or `None`
/// where `s` is not a URL.
pub uninterp spec fn parsed_url(s: Seq<char>) -> Option<Seq<char>>;

/// Relies on `url::Url::parse` and on `String::from(Url)`, which hands back the URL's
/// serialisation; both depend on the text alone.
#[verifier::external_body]
fn parse_url(s: &str) -> (r: Option<String>)
    ensures
        match parsed_url(s@) {
            Some(u) => r is Some && r->0@ == u,
            None => r is None,
        },
{
    url::Url::parse(s).ok().map(String::from)
}

pub open spec fn server_url_text(address: Seq<char>, port: Seq<char>) -> Seq<char> {
    "ws://"@ + address + ":"@ + port + "/ws"@
}

/// The address of the chat endpoint of a server: `ws://<address>:<port>/ws`.
pub fn server_url(address: &str, port: &str) -> (r: String)
    ensures
        r@ == server_url_text(address@, port@),
{
    let mut url = String::from_str("ws://");
    url.append(address);
    url.append(":");
    url.append(port);
    url.append("/ws");
    url
}

/// The chat endpoint of a server as a checked URL; `None` where the address and port
/// do not make one.
pub fn websocket_url(address: &str, port: &str) -> (r: Option<String>)
    ensures
        match parsed_url(server_url_text(address@, port@)) {
            Some(u) => r is Some && r->0@ == u,
            None => r is None,
        },
{
    let text = server_url(address, port);
    parse_url(text.as_str())
}

/// The address, port and username given to the client: exactly three values after the
/// program's name, in that order; `None` for any other count.
pub fn connection_params(args: &Vec<String>) -> (r: Option<(String, String, String)>)
    ensures
        args@.len() == 4 ==> r is Some && (r->0).0@ == args@[1]@ && (r->0).1@ == args@[2]@
            && (r->0).2@ == args@[3]@,
        args@.len() != 4 ==> r is None,
{
    if args.len() != 4 {
        return None;
    }
    Some((args[1].clone(), args[2].clone(), args[3].clone()))
}

} // verus!
