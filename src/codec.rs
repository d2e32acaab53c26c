use vstd::prelude::*;

use crate::text::{hex_digit, push_char};

verus! {

/// How one character is written inside a quoted JSON string: quote, backslash and
/// control characters are escaped, everything else stands for itself.
pub open spec fn escape_char(c: char) -> Seq<char> {
    if c == '"' {
        seq!['\\', '"']
    } else if c == '\\' {
        seq!['\\', '\\']
    } else if c == '\n' {
        seq!['\\', 'n']
    } else if c == '\r' {
        seq!['\\', 'r']
    } else if c == '\t' {
        seq!['\\', 't']
    } else if c == '\u{8}' {
        seq!['\\', 'b']
    } else if c == '\u{c}' {
        seq!['\\', 'f']
    } else if (c as u32) < 32 {
        seq!['\\', 'u', '0', '0', hex_digit((c as u32) / 16), hex_digit((c as u32) % 16)]
    } else {
        seq![c]
    }
}

/// The body of a quoted JSON string holding `s` (without the quotes).
pub open spec fn escape(s: Seq<char>) -> Seq<char>
    decreases s.len(),
{
    if s.len() == 0 {
        seq![]
    } else {
        escape(s.drop_last()) + escape_char(s.last())
    }
}

pub open spec fn is_hex(c: char) -> bool {
    (48 <= (c as u32) <= 57) || (65 <= (c as u32) <= 70) || (97 <= (c as u32) <= 102)
}

pub open spec fn hex_value(c: char) -> u32 {
    if (c as u32) <= 57 {
        ((c as u32) - 48) as u32
    } else if (c as u32) <= 70 {
        ((c as u32) - 55) as u32
    } else {
        ((c as u32) - 87) as u32
    }
}

/// The number of characters of the backslash sequence at the front of `s`.
pub open spec fn escape_len(s: Seq<char>) -> int {
    if s.len() >= 2 && s[1] == 'u' {
        6
    } else {
        2
    }
}

/// The character that the backslash sequence at the front of `s` stands for, if it is
/// one that this format reads.
pub open spec fn escaped_value(s: Seq<char>) -> Option<char> {
    if s.len() < 2 || s[0] != '\\' {
        None
    } else if s[1] == '"' || s[1] == '\\' || s[1] == '/' {
        Some(s[1])
    } else if s[1] == 'n' {
        Some('\n')
    } else if s[1] == 'r' {
        Some('\r')
    } else if s[1] == 't' {
        Some('\t')
    } else if s[1] == 'b' {
        Some('\u{8}')
    } else if s[1] == 'f' {
        Some('\u{c}')
    } else if s[1] == 'u' && s.len() >= 6 && s[2] == '0' && s[3] == '0' && is_hex(s[4])
        && is_hex(s[5]) {
        Some(((hex_value(s[4]) * 16 + hex_value(s[5])) as u32) as char)
    } else {
        None
    }
}

/// Reads the body of a quoted string up to and including its closing quote: the
/// characters it holds and what follows the quote.
pub open spec fn unquote(s: Seq<char>) -> Option<(Seq<char>, Seq<char>)>
    decreases s.len(),
{
    if s.len() == 0 {
        None
    } else if s[0] == '"' {
        Some((seq![], s.drop_first()))
    } else if s[0] == '\\' {
        match escaped_value(s) {
            Some(c) => match unquote(s.subrange(escape_len(s), s.len() as int)) {
                Some((d, r)) => Some((seq![c] + d, r)),
                None => None,
            },
            None => None,
        }
    } else if (s[0] as u32) < 32 {
        None
    } else {
        match unquote(s.drop_first()) {
            Some((d, r)) => Some((seq![s[0]] + d, r)),
            None => None,
        }
    }
}

pub proof fn lemma_escape_concat(a: Seq<char>, b: Seq<char>)
    ensures
        escape(a + b) == escape(a) + escape(b),
    decreases b.len(),
{
    if b.len() == 0 {
        assert(a + b =~= a);
        assert(escape(b) =~= seq![]);
        assert(escape(a) + escape(b) =~= escape(a));
    } else {
        lemma_escape_concat(a, b.drop_last());
        assert((a + b).drop_last() =~= a + b.drop_last());
        assert((a + b).last() == b.last());
        assert(escape(a + b) =~= escape(a) + escape(b));
    }
}

proof fn lemma_escape_front(s: Seq<char>)
    requires
        s.len() > 0,
    ensures
        escape(s) == escape_char(s[0]) + escape(s.drop_first()),
{
    lemma_escape_concat(seq![s[0]], s.drop_first());
    assert(seq![s[0]] + s.drop_first() =~= s);
    let one = seq![s[0]];
    assert(one.drop_last() =~= Seq::<char>::empty());
    assert(escape(one.drop_last()) == Seq::<char>::empty());
    assert(one.last() == s[0]);
    assert(escape(one) =~= escape(one.drop_last()) + escape_char(one.last()));
    assert(escape(one) =~= escape_char(s[0]));
}

proof fn lemma_hex_round_trip(n: u32)
    requires
        n < 16,
    ensures
        is_hex(hex_digit(n)),
        hex_value(hex_digit(n)) == n,
{
}

proof fn lemma_unquote_escape_char(c: char, rest: Seq<char>)
    ensures
        unquote(escape_char(c) + rest) == match unquote(rest) {
            Some((d, r)) => Some((seq![c] + d, r)),
            None => None,
        },
{
    let s = escape_char(c) + rest;
    let v = c as u32;
    if c == '"' || c == '\\' || c == '\n' || c == '\r' || c == '\t' || c == '\u{8}' || c
        == '\u{c}' {
        assert(s.subrange(2, s.len() as int) =~= rest);
    } else if v < 32 {
        lemma_hex_round_trip(v / 16);
        lemma_hex_round_trip(v % 16);
        assert(s[4] == hex_digit(v / 16));
        assert(s[5] == hex_digit(v % 16));
        assert(hex_value(s[4]) * 16 + hex_value(s[5]) == v);
        vstd::utf8::char_u32_cast(c, v);
        assert(escaped_value(s) == Some(c));
        assert(s.subrange(6, s.len() as int) =~= rest);
    } else {
        assert(s.drop_first() =~= rest);
    }
}

/// Reading back a quoted string written by `escape` gives the original characters and
/// leaves what follows the closing quote untouched.
pub proof fn lemma_unquote_escape(s: Seq<char>, rest: Seq<char>)
    ensures
        unquote(escape(s) + seq!['"'] + rest) == Some((s, rest)),
    decreases s.len(),
{
    if s.len() == 0 {
        assert(escape(s) + seq!['"'] + rest =~= seq!['"'] + rest);
        assert((seq!['"'] + rest).drop_first() =~= rest);
        assert(s =~= seq![]);
    } else {
        lemma_escape_front(s);
        lemma_unquote_escape(s.drop_first(), rest);
        lemma_unquote_escape_char(s[0], escape(s.drop_first()) + seq!['"'] + rest);
        assert(escape(s) + seq!['"'] + rest =~= escape_char(s[0]) + (escape(s.drop_first())
            + seq!['"'] + rest));
        assert(seq![s[0]] + s.drop_first() =~= s);
    }
}

/// `{"username":"`
pub open spec fn user_key() -> Seq<char> {
    seq!['{', '"', 'u', 's', 'e', 'r', 'n', 'a', 'm', 'e', '"', ':', '"']
}

/// `,"content":"`
pub open spec fn content_key() -> Seq<char> {
    seq![',', '"', 'c', 'o', 'n', 't', 'e', 'n', 't', '"', ':', '"']
}

/// The wire text of an envelope: a JSON object with the two keys `username` and
/// `content`, in that order, with no white space.
pub open spec fn encode_envelope(username: Seq<char>, content: Seq<char>) -> Seq<char> {
    user_key() + escape(username) + seq!['"'] + content_key() + escape(content) + seq!['"', '}']
}

/// Reads wire text back into the username and the content it carries; `None` where the
/// text is not in the form that `encode_envelope` writes (escapes aside).
pub open spec fn decode_envelope(t: Seq<char>) -> Option<(Seq<char>, Seq<char>)> {
    let uk = user_key();
    let ck = content_key();
    if t.len() < uk.len() || t.subrange(0, uk.len() as int) != uk {
        None
    } else {
        match unquote(t.subrange(uk.len() as int, t.len() as int)) {
            None => None,
            Some((u, r1)) => if r1.len() < ck.len() || r1.subrange(0, ck.len() as int) != ck {
                None
            } else {
                match unquote(r1.subrange(ck.len() as int, r1.len() as int)) {
                    None => None,
                    Some((c, r2)) => if r2 == seq!['}'] {
                        Some((u, c))
                    } else {
                        None
                    },
                }
            },
        }
    }
}

/// Decoding the wire text of an envelope gives back its username and content.
pub proof fn lemma_decode_encode(username: Seq<char>, content: Seq<char>)
    ensures
        decode_envelope(encode_envelope(username, content)) == Some((username, content)),
{
    let t = encode_envelope(username, content);
    let uk = user_key();
    let ck = content_key();
    let r1 = ck + escape(content) + seq!['"', '}'];
    let r2 = seq!['}'];
    assert(t.subrange(0, uk.len() as int) =~= uk);
    assert(t.subrange(uk.len() as int, t.len() as int) =~= escape(username) + seq!['"'] + r1);
    lemma_unquote_escape(username, r1);
    assert(r1.subrange(0, ck.len() as int) =~= ck);
    assert(r1.subrange(ck.len() as int, r1.len() as int) =~= escape(content) + seq!['"'] + r2);
    lemma_unquote_escape(content, r2);
}

pub open spec fn prefixed(p: Seq<char>, o: Option<(Seq<char>, Seq<char>)>) -> Option<
    (Seq<char>, Seq<char>),
> {
    match o {
        Some((d, r)) => Some((p + d, r)),
        None => None,
    }
}

proof fn lemma_prefixed_push(p: Seq<char>, c: char, o: Option<(Seq<char>, Seq<char>)>)
    ensures
        prefixed(p.push(c), o) == prefixed(p, prefixed(seq![c], o)),
{
    if let Some((d, r)) = o {
        assert(p.push(c) + d =~= p + (seq![c] + d));
    }
}

/// Appends every character of `cs` to `out`.
pub(crate) fn push_all(out: &mut String, cs: &Vec<char>)
    ensures
        final(out)@ == old(out)@ + cs@,
{
    let mut i: usize = 0;
    while i < cs.len()
        invariant
            i <= cs.len(),
            out@ == old(out)@ + cs@.subrange(0, i as int),
        decreases cs.len() - i,
    {
        push_char(out, cs[i]);
        i = i + 1;
        assert(out@ =~= old(out)@ + cs@.subrange(0, i as int));
    }
    assert(cs@.subrange(0, i as int) =~= cs@);
}

pub(crate) fn user_key_chars() -> (r: Vec<char>)
    ensures
        r@ == user_key(),
{
    let r = vec!['{', '"', 'u', 's', 'e', 'r', 'n', 'a', 'm', 'e', '"', ':', '"'];
    assert(r@ =~= user_key());
    r
}

pub(crate) fn content_key_chars() -> (r: Vec<char>)
    ensures
        r@ == content_key(),
{
    let r = vec![',', '"', 'c', 'o', 'n', 't', 'e', 'n', 't', '"', ':', '"'];
    assert(r@ =~= content_key());
    r
}

/// Appends the escaped form of `cs` to `out`.
pub(crate) fn escape_into(out: &mut String, cs: &Vec<char>)
    ensures
        final(out)@ == old(out)@ + escape(cs@),
{
    let mut i: usize = 0;
    while i < cs.len()
        invariant
            i <= cs.len(),
            out@ == old(out)@ + escape(cs@.subrange(0, i as int)),
        decreases cs.len() - i,
    {
        let c = cs[i];
        let ghost before = out@;
        if c == '"' {
            push_char(out, '\\');
            push_char(out, '"');
        } else if c == '\\' {
            push_char(out, '\\');
            push_char(out, '\\');
        } else if c == '\n' {
            push_char(out, '\\');
            push_char(out, 'n');
        } else if c == '\r' {
            push_char(out, '\\');
            push_char(out, 'r');
        } else if c == '\t' {
            push_char(out, '\\');
            push_char(out, 't');
        } else if c == '\u{8}' {
            push_char(out, '\\');
            push_char(out, 'b');
        } else if c == '\u{c}' {
            push_char(out, '\\');
            push_char(out, 'f');
        } else if (c as u32) < 32 {
            push_char(out, '\\');
            push_char(out, 'u');
            push_char(out, '0');
            push_char(out, '0');
            push_char(out, crate::text::hex_char((c as u32) / 16));
            push_char(out, crate::text::hex_char((c as u32) % 16));
        } else {
            push_char(out, c);
        }
        assert(out@ =~= before + escape_char(c));
        let ghost next = cs@.subrange(0, i + 1);
        assert(next.drop_last() =~= cs@.subrange(0, i as int));
        assert(next.last() == c);
        i = i + 1;
        assert(out@ =~= old(out)@ + escape(cs@.subrange(0, i as int)));
    }
    assert(cs@.subrange(0, i as int) =~= cs@);
}

/// Whether `key` stands in `cs` from position `i` on.
pub(crate) fn has_at(cs: &Vec<char>, i: usize, key: &Vec<char>) -> (r: bool)
    requires
        i <= cs.len(),
    ensures
        r == (i + key.len() <= cs.len() && cs@.subrange(i as int, i + key.len()) == key@),
{
    if key.len() > cs.len() - i {
        return false;
    }
    let mut k: usize = 0;
    while k < key.len()
        invariant
            i + key.len() <= cs.len(),
            k <= key.len(),
            forall|j: int| 0 <= j < k ==> cs@[i + j] == key@[j],
        decreases key.len() - k,
    {
        if cs[i + k] != key[k] {
            assert(cs@.subrange(i as int, i + key.len())[k as int] != key@[k as int]);
            return false;
        }
        k = k + 1;
    }
    assert(cs@.subrange(i as int, i + key.len()) =~= key@);
    true
}

fn hex_val(c: char) -> (r: u32)
    requires
        is_hex(c),
    ensures
        r == hex_value(c),
{
    if (c as u32) <= 57 {
        (c as u32) - 48
    } else if (c as u32) <= 70 {
        (c as u32) - 55
    } else {
        (c as u32) - 87
    }
}

fn is_hex_char(c: char) -> (r: bool)
    ensures
        r == is_hex(c),
{
    let v = c as u32;
    (48 <= v && v <= 57) || (65 <= v && v <= 70) || (97 <= v && v <= 102)
}

/// Reads a quoted string body in `cs` from `start` on, as `unquote` does: the characters
/// it holds and the position just past its closing quote.
pub(crate) fn read_quoted(cs: &Vec<char>, start: usize) -> (r: Option<(String, usize)>)
    requires
        start <= cs.len(),
    ensures
        match unquote(cs@.subrange(start as int, cs@.len() as int)) {
            Some((d, rest)) => r is Some && (r->0).0@ == d && (r->0).1 <= cs.len() && rest
                == cs@.subrange((r->0).1 as int, cs@.len() as int),
            None => r is None,
        },
{
    let n = cs.len();
    let mut out = String::new();
    let mut i = start;
    loop
        invariant
            n == cs.len(),
            start <= i <= n,
            unquote(cs@.subrange(start as int, n as int)) == prefixed(
                out@,
                unquote(cs@.subrange(i as int, n as int)),
            ),
        decreases n - i,
    {
        let ghost s = cs@.subrange(i as int, n as int);
        if i >= n {
            assert(s.len() == 0);
            return None;
        }
        let c = cs[i];
        assert(s[0] == c);
        if c == '"' {
            assert(s.drop_first() =~= cs@.subrange(i + 1, n as int));
            assert(out@ + seq![] =~= out@);
            return Some((out, i + 1));
        } else if c == '\\' {
            if i + 1 >= n {
                return None;
            }
            let e = cs[i + 1];
            assert(s[1] == e);
            let mut v: char = e;
            let mut len: usize = 2;
            if e == '"' || e == '\\' || e == '/' {
            } else if e == 'n' {
                v = '\n';
            } else if e == 'r' {
                v = '\r';
            } else if e == 't' {
                v = '\t';
            } else if e == 'b' {
                v = '\u{8}';
            } else if e == 'f' {
                v = '\u{c}';
            } else if e == 'u' {
                if n - i > 5 && cs[i + 2] == '0' && cs[i + 3] == '0' && is_hex_char(cs[i + 4])
                    && is_hex_char(cs[i + 5]) {
                    assert(s[2] == cs[i + 2] && s[3] == cs[i + 3] && s[4] == cs[i + 4] && s[5]
                        == cs[i + 5]);
                    let code = hex_val(cs[i + 4]) * 16 + hex_val(cs[i + 5]);
                    v = (code as u8) as char;
                    len = 6;
                } else {
                    assert(escaped_value(s) is None);
                    return None;
                }
            } else {
                return None;
            }
            assert(escaped_value(s) == Some(v));
            assert(escape_len(s) == len);
            assert(s.subrange(len as int, s.len() as int) =~= cs@.subrange(i + len, n as int));
            proof {
                lemma_prefixed_push(out@, v, unquote(cs@.subrange(i + len, n as int)));
            }
            push_char(&mut out, v);
            i = i + len;
        } else if (c as u32) < 32 {
            return None;
        } else {
            assert(s.drop_first() =~= cs@.subrange(i + 1, n as int));
            proof {
                lemma_prefixed_push(out@, c, unquote(cs@.subrange(i + 1, n as int)));
            }
            push_char(&mut out, c);
            i = i + 1;
        }
    }
}

} // verus!
