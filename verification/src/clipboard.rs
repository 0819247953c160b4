//! The OSC 52 escape sequence that asks a terminal to put text on the clipboard,
//! and the Base64 encoding that it carries.

use vstd::prelude::*;
use vstd::utf8::encode_utf8;

verus! {

/// The character for the six-bit value `v` in the standard Base64 alphabet
/// `A-Z a-z 0-9 + /`.
pub open spec fn b64_char(v: int) -> char {
    if v < 26 {
        (65 + v) as char
    } else if v < 52 {
        (71 + v) as char
    } else if v < 62 {
        (v - 4) as char
    } else if v == 62 {
        '+'
    } else {
        '/'
    }
}

/// Whether `c` can occur in Base64 output: a letter of the alphabet or the padding `=`.
pub open spec fn is_b64_output_char(c: char) -> bool {
    ||| 'A' <= c <= 'Z'
    ||| 'a' <= c <= 'z'
    ||| '0' <= c <= '9'
    ||| c == '+'
    ||| c == '/'
    ||| c == '='
}

/// The four characters that encode the three bytes `b0 b1 b2`.
pub open spec fn b64_group(b0: u8, b1: u8, b2: u8) -> Seq<char> {
    seq![
        b64_char(b0 as int / 4),
        b64_char((b0 as int % 4) * 16 + b1 as int / 16),
        b64_char((b1 as int % 16) * 4 + b2 as int / 64),
        b64_char(b2 as int % 64),
    ]
}

/// Standard Base64 (RFC 4648, with `=` padding) of `input`: each group of three
/// bytes becomes four characters; one or two bytes left over become four
/// characters ending in `==` or `=`.
pub open spec fn base64(input: Seq<u8>) -> Seq<char>
    decreases input.len(),
{
    if input.len() == 0 {
        seq![]
    } else if input.len() == 1 {
        seq![b64_char(input[0] as int / 4), b64_char((input[0] as int % 4) * 16), '=', '=']
    } else if input.len() == 2 {
        seq![
            b64_char(input[0] as int / 4),
            b64_char((input[0] as int % 4) * 16 + input[1] as int / 16),
            b64_char((input[1] as int % 16) * 4),
            '=',
        ]
    } else {
        b64_group(input[0], input[1], input[2]) + base64(input.skip(3))
    }
}

/// Base64 works on three-byte groups independently: the encoding of `a + b` is
/// the encoding of `a` followed by that of `b` whenever the length of `a` is a
/// multiple of three.
pub proof fn lemma_base64_concat(a: Seq<u8>, b: Seq<u8>)
    requires
        a.len() % 3 == 0,
    ensures
        base64(a + b) == base64(a) + base64(b),
    decreases a.len(),
{
    if a.len() == 0 {
        assert(a + b == b);
    } else {
        assert((a + b).skip(3) == a.skip(3) + b);
        lemma_base64_concat(a.skip(3), b);
        assert((a + b)[0] == a[0] && (a + b)[1] == a[1] && (a + b)[2] == a[2]);
    }
}

/// The encoding of `n` bytes has `4 * ceil(n / 3)` characters.
pub proof fn lemma_base64_len(s: Seq<u8>)
    ensures
        base64(s).len() == 4 * ((s.len() + 2) / 3),
    decreases s.len(),
{
    if s.len() >= 3 {
        lemma_base64_len(s.skip(3));
    }
}

/// Every character of an encoding is a letter of the Base64 alphabet or `=`.
pub proof fn lemma_base64_alphabet(s: Seq<u8>)
    ensures
        forall|i: int| 0 <= i < base64(s).len() ==> is_b64_output_char(#[trigger] base64(s)[i]),
    decreases s.len(),
{
    if s.len() >= 3 {
        lemma_base64_alphabet(s.skip(3));
        let g = b64_group(s[0], s[1], s[2]);
        assert forall|i: int| 0 <= i < base64(s).len() implies is_b64_output_char(
            #[trigger] base64(s)[i],
        ) by {
            if i >= 4 {
                assert(base64(s)[i] == base64(s.skip(3))[i - 4]);
            }
        }
    }
}

/// Executable `b64_char`.
fn b64_digit(v: u32) -> (c: char)
    requires
        v < 64,
    ensures
        c == b64_char(v as int),
{
    if v < 26 {
        ((65 + v) as u8) as char
    } else if v < 52 {
        ((71 + v) as u8) as char
    } else if v < 62 {
        ((v - 4) as u8) as char
    } else if v == 62 {
        '+'
    } else {
        '/'
    }
}

/// Standard Base64 with padding.
pub fn base64_encode(input: &[u8]) -> (out: String)
    ensures
        out@ == base64(input@),
{
    let mut out = String::new();
    let mut i: usize = 0;
    while input.len() - i >= 3
        invariant
            i <= input.len(),
            i % 3 == 0,
            out@ == base64(input@.take(i as int)),
        decreases input.len() - i,
    {
        let x = input[i];
        let y = input[i + 1];
        let z = input[i + 2];
        let b = (x as u32) << 16 | (y as u32) << 8 | (z as u32);
        assert(((b >> 18) & 0x3f) == (x as u32) / 4 && ((b >> 12) & 0x3f) == ((x as u32) % 4) * 16
            + (y as u32) / 16 && ((b >> 6) & 0x3f) == ((y as u32) % 16) * 4 + (z as u32) / 64 && (b
            & 0x3f) == (z as u32) % 64) by (bit_vector)
            requires
                b == (x as u32) << 16 | (y as u32) << 8 | (z as u32),
        ;
        out.push(b64_digit((b >> 18) & 0x3f));
        out.push(b64_digit((b >> 12) & 0x3f));
        out.push(b64_digit((b >> 6) & 0x3f));
        out.push(b64_digit(b & 0x3f));
        proof {
            let g = seq![x, y, z];
            assert(input@.take(i + 3) == input@.take(i as int) + g);
            lemma_base64_concat(input@.take(i as int), g);
            assert(g.skip(3) == Seq::<u8>::empty());
            assert(base64(g.skip(3)) == Seq::<char>::empty());
            assert(g[0] == x && g[1] == y && g[2] == z);
            assert(base64(g) == b64_group(x, y, z) + Seq::<char>::empty());
            assert(base64(g) == b64_group(x, y, z));
        }
        i += 3;
    }
    let rem = input.len() - i;
    if rem == 1 {
        let x = input[i];
        let b = (x as u32) << 16;
        assert(((b >> 18) & 0x3f) == (x as u32) / 4 && ((b >> 12) & 0x3f) == ((x as u32) % 4) * 16)
            by (bit_vector)
            requires
                b == (x as u32) << 16,
        ;
        out.push(b64_digit((b >> 18) & 0x3f));
        out.push(b64_digit((b >> 12) & 0x3f));
        out.push('=');
        out.push('=');
        proof {
            let g = seq![x];
            assert(input@ == input@.take(i as int) + g);
            lemma_base64_concat(input@.take(i as int), g);
        }
    } else if rem == 2 {
        let x = input[i];
        let y = input[i + 1];
        let b = (x as u32) << 16 | (y as u32) << 8;
        assert(((b >> 18) & 0x3f) == (x as u32) / 4 && ((b >> 12) & 0x3f) == ((x as u32) % 4) * 16
            + (y as u32) / 16 && ((b >> 6) & 0x3f) == ((y as u32) % 16) * 4) by (bit_vector)
            requires
                b == (x as u32) << 16 | (y as u32) << 8,
        ;
        out.push(b64_digit((b >> 18) & 0x3f));
        out.push(b64_digit((b >> 12) & 0x3f));
        out.push(b64_digit((b >> 6) & 0x3f));
        out.push('=');
        proof {
            let g = seq![x, y];
            assert(input@ == input@.take(i as int) + g);
            lemma_base64_concat(input@.take(i as int), g);
        }
    } else {
        assert(input@ == input@.take(i as int));
    }
    out
}

/// The OSC 52 "set clipboard" sequence for Base64 text `encoded`:
/// `ESC ] 52 ; c ; <encoded> ESC \`.
pub open spec fn osc52(encoded: Seq<char>) -> Seq<char> {
    seq!['\x1b', ']', '5', '2', ';', 'c', ';'] + encoded + seq!['\x1b', '\\']
}

/// `s` with every `ESC` doubled, as tmux wants inside a passthrough sequence.
pub open spec fn double_escapes(s: Seq<char>) -> Seq<char>
    decreases s.len(),
{
    if s.len() == 0 {
        seq![]
    } else if s.last() == '\x1b' {
        double_escapes(s.drop_last()) + seq!['\x1b', '\x1b']
    } else {
        double_escapes(s.drop_last()).push(s.last())
    }
}

/// A tmux passthrough (DCS) sequence that hands `inner` to the outer terminal:
/// `ESC P tmux ; <inner with ESC doubled> ESC \`.
pub open spec fn tmux_passthrough(inner: Seq<char>) -> Seq<char> {
    seq!['\x1b', 'P', 't', 'm', 'u', 'x', ';'] + double_escapes(inner) + seq!['\x1b', '\\']
}

/// What is written to the terminal to copy `text`: nothing for empty text;
/// otherwise the OSC 52 sequence for the Base64 of its UTF-8 bytes, wrapped for
/// tmux when running inside tmux.
pub open spec fn clipboard_sequence_spec(text: Seq<char>, in_tmux: bool) -> Option<Seq<char>> {
    if text.len() == 0 {
        None
    } else {
        let osc = osc52(base64(encode_utf8(text)));
        Some(
            if in_tmux {
                tmux_passthrough(osc)
            } else {
                osc
            },
        )
    }
}

/// Appends `s` with every `ESC` doubled to `out`.
fn push_doubling_escapes(out: &mut String, s: &Vec<char>)
    ensures
        final(out)@ == old(out)@ + double_escapes(s@),
{
    let mut i: usize = 0;
    while i < s.len()
        invariant
            i <= s.len(),
            out@ == old(out)@ + double_escapes(s@.take(i as int)),
        decreases s.len() - i,
    {
        let c = s[i];
        assert(s@.take(i + 1).drop_last() == s@.take(i as int));
        assert(s@.take(i + 1).last() == c);
        if c == '\x1b' {
            out.push('\x1b');
            out.push('\x1b');
        } else {
            out.push(c);
        }
        i += 1;
    }
    assert(s@.take(s.len() as int) == s@);
}

/// The bytes that `copy_to_clipboard` writes to the terminal for `text`, as a
/// string: `None` when `text` is empty, since nothing is written then.
pub fn clipboard_sequence(text: &str, in_tmux: bool) -> (res: Option<String>)
    ensures
        res matches Some(r) ==> clipboard_sequence_spec(text@, in_tmux) == Some(r@),
        res is None ==> clipboard_sequence_spec(text@, in_tmux) is None,
{
    if text.is_empty() {
        return None;
    }
    let encoded = base64_encode(text.as_bytes());
    let mut osc = String::new();
    osc.push('\x1b');
    osc.push(']');
    osc.push('5');
    osc.push('2');
    osc.push(';');
    osc.push('c');
    osc.push(';');
    osc.append(encoded.as_str());
    osc.push('\x1b');
    osc.push('\\');
    assert(osc@ == osc52(encoded@));
    if in_tmux {
        let inner = crate::text::chars_of(osc.as_str());
        let mut seq = String::new();
        seq.push('\x1b');
        seq.push('P');
        seq.push('t');
        seq.push('m');
        seq.push('u');
        seq.push('x');
        seq.push(';');
        push_doubling_escapes(&mut seq, &inner);
        seq.push('\x1b');
        seq.push('\\');
        assert(seq@ == tmux_passthrough(osc@));
        Some(seq)
    } else {
        Some(osc)
    }
}

} // verus!
