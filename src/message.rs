use vstd::prelude::*;

use crate::codec::{
    content_key_chars, decode_envelope, encode_envelope, escape_into, has_at, lemma_decode_encode,
    push_all, read_quoted, user_key_chars,
};
use crate::text::{chars_of, push_char};

verus! {

/// A chat envelope: who wrote it and what they wrote.
#[derive(Clone, Debug)]
pub struct ChatMessage {
    username: String,
    content: String,
}

impl View for ChatMessage {
    type V = (Seq<char>, Seq<char>);

    closed spec fn view(&self) -> (Seq<char>, Seq<char>) {
        (self.username@, self.content@)
    }
}

impl ChatMessage {
    pub fn new(username: &str, content: &str) -> (r: ChatMessage)
        ensures
            r@ == (username@, content@),
    {
        ChatMessage { username: username.to_string(), content: content.to_string() }
    }

    pub fn get_username(&self) -> (r: String)
        ensures
            r@ == self@.0,
    {
        self.username.clone()
    }

    pub fn get_content(&self) -> (r: String)
        ensures
            r@ == self@.1,
    {
        self.content.clone()
    }

    /// The human-readable form `"<username>: <content>"`.
    pub fn render(&self) -> (r: String)
        ensures
            r@ == rendering(self@),
    {
        let mut out = self.username.clone();
        push_char(&mut out, ':');
        push_char(&mut out, ' ');
        out.append(self.content.as_str());
        out
    }

    /// The wire text of this envelope.
    pub fn encode(&self) -> (r: String)
        ensures
            r@ == encode_envelope(self@.0, self@.1),
    {
        let mut out = String::new();
        push_all(&mut out, &user_key_chars());
        escape_into(&mut out, &chars_of(self.username.as_str()));
        push_char(&mut out, '"');
        push_all(&mut out, &content_key_chars());
        escape_into(&mut out, &chars_of(self.content.as_str()));
        push_char(&mut out, '"');
        push_char(&mut out, '}');
        assert(out@ =~= encode_envelope(self@.0, self@.1));
        out
    }

    /// Reads an envelope back from wire text in the compact form that `encode` writes:
    /// the key `username`, then `content`, no white space, and inside the strings only
    /// the escapes that `escape` writes, `\/`, and `\u00XX` in either case. Any other
    /// text gives `None`.
    pub fn decode(text: &str) -> (r: Option<ChatMessage>)
        ensures
            match decode_envelope(text@) {
                Some(v) => r is Some && r->0@ == v,
                None => r is None,
            },
    {
        let cs = chars_of(text);
        let n = cs.len();
        let uk = user_key_chars();
        if !has_at(&cs, 0, &uk) {
            return None;
        }
        let ghost t = text@;
        assert(t.subrange(uk.len() as int, n as int) == cs@.subrange(uk.len() as int, n as int));
        match read_quoted(&cs, uk.len()) {
            None => None,
            Some((username, i)) => {
                let ck = content_key_chars();
                let ghost r1 = cs@.subrange(i as int, n as int);
                if !has_at(&cs, i, &ck) {
                    assert(r1.len() < ck@.len() || r1.subrange(0, ck@.len() as int)
                        != ck@) by {
                        if r1.len() >= ck@.len() {
                            assert(r1.subrange(0, ck@.len() as int) =~= cs@.subrange(
                                i as int,
                                i + ck@.len(),
                            ));
                        }
                    }
                    return None;
                }
                assert(r1.subrange(0, ck@.len() as int) =~= cs@.subrange(
                    i as int,
                    i + ck@.len(),
                ));
                assert(r1.subrange(ck@.len() as int, r1.len() as int) =~= cs@.subrange(
                    i + ck@.len(),
                    n as int,
                ));
                match read_quoted(&cs, i + ck.len()) {
                    None => None,
                    Some((content, j)) => {
                        let ghost r2 = cs@.subrange(j as int, n as int);
                        if j < n && n - j == 1 && cs[j] == '}' {
                            assert(r2 =~= seq!['}']);
                            Some(ChatMessage { username, content })
                        } else {
                            assert(r2 != seq!['}']) by {
                                if r2 == seq!['}'] {
                                    assert(r2.len() == 1);
                                    assert(r2[0] == cs@[j as int]);
                                }
                            }
                            None
                        }
                    },
                }
            },
        }
    }
}

/// `"<username>: <content>"` of an envelope's view.
pub open spec fn rendering(m: (Seq<char>, Seq<char>)) -> Seq<char> {
    m.0 + seq![':', ' '] + m.1
}

/// Encoding an envelope and decoding the text gives an envelope with the same username
/// and content, which therefore renders the same.
pub proof fn lemma_envelope_round_trip(m: ChatMessage)
    ensures
        decode_envelope(encode_envelope(m@.0, m@.1)) == Some(m@),
        rendering(decode_envelope(encode_envelope(m@.0, m@.1))->0) == rendering(m@),
{
    lemma_decode_encode(m@.0, m@.1);
}

} // verus!
