use vstd::prelude::*;
use vstd::string::StringSliceAdditionalSpecFns;

use crate::render::ascii_chars;
use crate::render::ascii_to_string;
use crate::render::hex_digit;
use crate::render::hex_digit_byte;

verus! {

/// The bytes that path-segment encoding escapes: the controls, space, `"`,
/// `#`, `<`, `>`, `?`, backtick, `{`, `}`, `/`, `%`, and every non-ASCII
/// byte.
pub open spec fn must_escape(b: u8) -> bool {
    b <= 0x20 || b >= 0x7f || b == 0x22 || b == 0x23 || b == 0x3c || b == 0x3e || b == 0x3f
        || b == 0x60 || b == 0x7b || b == 0x7d || b == 0x2f || b == 0x25
}

/// The percent-escape of one byte: `%` then two upper-case hex digits.
pub open spec fn escape_byte(b: u8) -> Seq<u8> {
    seq![0x25u8, hex_digit(b / 16), hex_digit(b % 16)]
}

/// The path-segment encoding of one byte.
pub open spec fn encode_byte(b: u8) -> Seq<u8> {
    if must_escape(b) {
        escape_byte(b)
    } else {
        seq![b]
    }
}

/// The path-segment encoding of a byte string, byte by byte.
pub open spec fn encode_bytes(s: Seq<u8>) -> Seq<u8>
    decreases s.len(),
{
    if s.len() == 0 {
        Seq::empty()
    } else {
        encode_byte(s[0]) + encode_bytes(s.drop_first())
    }
}

fn must_escape_byte(b: u8) -> (r: bool)
    ensures
        r == must_escape(b),
{
    b <= 0x20 || b >= 0x7f || b == 0x22 || b == 0x23 || b == 0x3c || b == 0x3e || b == 0x3f
        || b == 0x60 || b == 0x7b || b == 0x7d || b == 0x2f || b == 0x25
}

/// Maps an arbitrary text value to a percent-encoded form safe for
/// insertion into a URL path segment, escaping each byte of its UTF-8
/// form that is not a safe visible ASCII character. A literal `%` in the
/// input is itself escaped rather than mistaken for an existing escape;
/// no decoding counterpart is provided.
pub fn encode_path(pc: &str) -> (r: String)
    ensures
        r@ == ascii_chars(encode_bytes(pc.spec_bytes())),
{
    let bytes = pc.as_bytes();
    let mut out: Vec<u8> = Vec::new();
    let mut i: usize = 0;
    proof {
        assert(bytes@.skip(0int) =~= bytes@);
        assert(out@ + encode_bytes(bytes@) =~= encode_bytes(bytes@));
    }
    while i < bytes.len()
        invariant
            0 <= i <= bytes@.len(),
            encode_bytes(bytes@) == out@ + encode_bytes(bytes@.skip(i as int)),
            forall|j: int| 0 <= j < out@.len() ==> out@[j] < 0x80,
        decreases bytes@.len() - i,
    {
        let ghost prev: Seq<u8> = out@;
        let ghost rest: Seq<u8> = bytes@.skip(i as int);
        let b = bytes[i];
        proof {
            assert(rest[0] == bytes@[i as int]);
            assert(rest.drop_first() =~= bytes@.skip(i as int + 1));
            assert(encode_bytes(rest) == encode_byte(b) + encode_bytes(bytes@.skip(i as int + 1)));
        }
        if must_escape_byte(b) {
            out.push(0x25);
            out.push(hex_digit_byte(b / 16));
            out.push(hex_digit_byte(b % 16));
        } else {
            out.push(b);
        }
        proof {
            assert(out@ =~= prev + encode_byte(b));
            assert(encode_bytes(bytes@) =~= out@ + encode_bytes(bytes@.skip(i as int + 1)));
        }
        i += 1;
    }
    proof {
        assert(bytes@.skip(i as int) =~= Seq::<u8>::empty());
        assert(encode_bytes(bytes@) =~= out@);
    }
    ascii_to_string(out)
}

/// The encoding is unambiguous: two different texts never encode to the
/// same path segment. In particular an input that already looks
/// percent-escaped is escaped character-by-character, never reinterpreted
/// as an existing escape.
pub proof fn lemma_encode_bytes_injective(s: Seq<u8>, t: Seq<u8>)
    requires
        encode_bytes(s) == encode_bytes(t),
    ensures
        s == t,
    decreases s.len(),
{
    if s.len() == 0 {
        if t.len() > 0 {
            assert(encode_bytes(t).len() >= encode_byte(t[0]).len());
            assert(false);
        }
        assert(s =~= t);
    } else if t.len() == 0 {
        assert(encode_bytes(s).len() >= encode_byte(s[0]).len());
        assert(false);
    } else {
        let a = s[0];
        let b = t[0];
        assert(encode_bytes(s)[0] == encode_byte(a)[0]);
        assert(encode_bytes(t)[0] == encode_byte(b)[0]);
        if must_escape(a) && must_escape(b) {
            assert(encode_bytes(s)[1] == hex_digit(a / 16));
            assert(encode_bytes(s)[2] == hex_digit(a % 16));
            assert(encode_bytes(t)[1] == hex_digit(b / 16));
            assert(encode_bytes(t)[2] == hex_digit(b % 16));
            assert(a / 16 == b / 16);
            assert(a % 16 == b % 16);
            assert(a == b);
            assert(encode_bytes(s).skip(3) =~= encode_bytes(s.drop_first()));
            assert(encode_bytes(t).skip(3) =~= encode_bytes(t.drop_first()));
            lemma_encode_bytes_injective(s.drop_first(), t.drop_first());
            lemma_eq_from_head_and_tail(s, t);
        } else if !must_escape(a) && !must_escape(b) {
            assert(a == b);
            assert(encode_bytes(s).skip(1) =~= encode_bytes(s.drop_first()));
            assert(encode_bytes(t).skip(1) =~= encode_bytes(t.drop_first()));
            lemma_encode_bytes_injective(s.drop_first(), t.drop_first());
            lemma_eq_from_head_and_tail(s, t);
        } else if must_escape(a) {
            assert(encode_bytes(s)[0] == 0x25);
            assert(b != 0x25);
            assert(false);
        } else {
            assert(encode_bytes(t)[0] == 0x25);
            assert(a != 0x25);
            assert(false);
        }
    }
}

/// Two different texts never yield the same encoded path segment, also
/// once the encoded bytes are read back as characters.
pub proof fn lemma_encoded_strings_distinct(s: Seq<u8>, t: Seq<u8>)
    requires
        s != t,
    ensures
        ascii_chars(encode_bytes(s)) != ascii_chars(encode_bytes(t)),
{
    if ascii_chars(encode_bytes(s)) == ascii_chars(encode_bytes(t)) {
        let es = encode_bytes(s);
        let et = encode_bytes(t);
        assert(ascii_chars(es).len() == ascii_chars(et).len());
        assert(es.len() == et.len());
        assert forall|i: int| 0 <= i < es.len() implies es[i] == et[i] by {
            assert(ascii_chars(es)[i] == ascii_chars(et)[i]);
            assert((es[i] as char) as u8 == es[i]);
            assert((et[i] as char) as u8 == et[i]);
        }
        assert(es =~= et);
        lemma_encode_bytes_injective(s, t);
    }
}

proof fn lemma_eq_from_head_and_tail(s: Seq<u8>, t: Seq<u8>)
    requires
        s.len() > 0,
        t.len() > 0,
        s[0] == t[0],
        s.drop_first() == t.drop_first(),
    ensures
        s == t,
{
    assert(s.drop_first().len() == s.len() - 1);
    assert(t.drop_first().len() == t.len() - 1);
    assert(s.len() == t.len());
    assert forall|j: int| 0 <= j < s.len() implies s[j] == t[j] by {
        if j >= 1 {
            assert(s.drop_first()[j - 1] == s[j]);
            assert(t.drop_first()[j - 1] == t[j]);
        }
    }
    assert(s =~= t);
}

} // verus!
