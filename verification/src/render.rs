use vstd::prelude::*;

use crate::headers::HeaderMap;

verus! {

/// The ASCII characters corresponding to a sequence of ASCII bytes.
pub open spec fn ascii_chars(s: Seq<u8>) -> Seq<char> {
    Seq::new(s.len(), |i: int| s[i] as char)
}

/// Every byte of `s` is ASCII.
pub open spec fn all_ascii(s: Seq<u8>) -> bool {
    forall|i: int| 0 <= i < s.len() ==> #[trigger] s[i] < 0x80
}

proof fn lemma_all_ascii_concat(a: Seq<u8>, b: Seq<u8>)
    requires
        all_ascii(a),
        all_ascii(b),
    ensures
        all_ascii(a + b),
{
    assert forall|i: int| 0 <= i < (a + b).len() implies #[trigger] (a + b)[i] < 0x80 by {
        if i < a.len() {
            assert((a + b)[i] == a[i]);
        } else {
            assert((a + b)[i] == b[i - a.len()]);
        }
    }
}

/// The byte of the upper-case hexadecimal digit for a value below sixteen.
pub open spec fn hex_digit(n: u8) -> u8
    recommends
        n < 16,
{
    if n < 10 {
        (0x30 + n) as u8
    } else {
        (0x37 + n) as u8
    }
}

pub(crate) fn hex_digit_byte(n: u8) -> (r: u8)
    requires
        n < 16,
    ensures
        r == hex_digit(n),
{
    if n < 10 {
        0x30 + n
    } else {
        0x37 + n
    }
}

/// Relies on String::from_utf8: bytes that are all ASCII are valid UTF-8
/// and become the string made of exactly those characters.
#[verifier::external_body]
pub(crate) fn ascii_to_string(v: Vec<u8>) -> (r: String)
    requires
        all_ascii(v@),
    ensures
        r@ == ascii_chars(v@),
{
    String::from_utf8(v).unwrap_or_default()
}

/// The decimal rendering of a non-negative number, most significant digit
/// first.
pub open spec fn dec_digits(n: int) -> Seq<u8>
    recommends
        0 <= n,
    decreases n,
{
    if n < 10 {
        seq![(0x30 + n) as u8]
    } else {
        dec_digits(n / 10) + seq![(0x30 + n % 10) as u8]
    }
}

proof fn lemma_dec_digits_ascii(n: int)
    requires
        0 <= n,
    ensures
        all_ascii(dec_digits(n)),
    decreases n,
{
    if n >= 10 {
        lemma_dec_digits_ascii(n / 10);
        lemma_all_ascii_concat(dec_digits(n / 10), seq![(0x30 + n % 10) as u8]);
    }
}

pub(crate) fn push_dec(n: u16, out: &mut Vec<u8>)
    ensures
        final(out)@ == old(out)@ + dec_digits(n as int),
        all_ascii(old(out)@) ==> all_ascii(final(out)@),
    decreases n,
{
    if n < 10 {
        out.push(0x30 + (n as u8));
    } else {
        push_dec(n / 10, out);
        out.push(0x30 + ((n % 10) as u8));
    }
    proof {
        assert(out@ =~= old(out)@ + dec_digits(n as int));
        if all_ascii(old(out)@) {
            lemma_dec_digits_ascii(n as int);
            lemma_all_ascii_concat(old(out)@, dec_digits(n as int));
        }
    }
}

/// One byte as it is rendered inside a message: a visible ASCII byte other
/// than the backslash stands for itself, every other byte as a hex escape.
pub open spec fn render_byte(b: u8) -> Seq<u8> {
    if 0x20 <= b && b < 0x7f && b != 0x5c {
        seq![b]
    } else {
        seq![0x5cu8, 0x78, hex_digit(b / 16), hex_digit(b % 16)]
    }
}

/// A byte string as it is rendered inside a message, byte by byte.
pub open spec fn render_bytes(s: Seq<u8>) -> Seq<u8>
    decreases s.len(),
{
    if s.len() == 0 {
        Seq::empty()
    } else {
        render_byte(s[0]) + render_bytes(s.drop_first())
    }
}

proof fn lemma_render_bytes_ascii(s: Seq<u8>)
    ensures
        all_ascii(render_bytes(s)),
    decreases s.len(),
{
    if s.len() > 0 {
        lemma_render_bytes_ascii(s.drop_first());
        lemma_all_ascii_concat(render_byte(s[0]), render_bytes(s.drop_first()));
    }
}

pub(crate) fn push_rendered(s: &[u8], out: &mut Vec<u8>)
    ensures
        final(out)@ == old(out)@ + render_bytes(s@),
        all_ascii(old(out)@) ==> all_ascii(final(out)@),
{
    let ghost base: Seq<u8> = out@;
    let mut i: usize = 0;
    proof {
        assert(s@.skip(0int) =~= s@);
        assert(out@ + render_bytes(s@) =~= base + render_bytes(s@));
    }
    while i < s.len()
        invariant
            0 <= i <= s@.len(),
            out@ + render_bytes(s@.skip(i as int)) == base + render_bytes(s@),
        decreases s@.len() - i,
    {
        let ghost prev: Seq<u8> = out@;
        let ghost rest: Seq<u8> = s@.skip(i as int);
        let b = s[i];
        proof {
            assert(rest[0] == s@[i as int]);
            assert(rest.drop_first() =~= s@.skip(i as int + 1));
            assert(render_bytes(rest) == render_byte(b) + render_bytes(s@.skip(i as int + 1)));
        }
        if 0x20 <= b && b < 0x7f && b != 0x5c {
            out.push(b);
        } else {
            out.push(0x5c);
            out.push(0x78);
            out.push(hex_digit_byte(b / 16));
            out.push(hex_digit_byte(b % 16));
        }
        proof {
            assert(out@ =~= prev + render_byte(b));
            assert(out@ + render_bytes(s@.skip(i as int + 1)) =~= base + render_bytes(s@));
        }
        i += 1;
    }
    proof {
        assert(s@.skip(i as int) =~= Seq::<u8>::empty());
        assert(out@ =~= base + render_bytes(s@));
        if all_ascii(base) {
            lemma_render_bytes_ascii(s@);
            lemma_all_ascii_concat(base, render_bytes(s@));
        }
    }
}

/// One header as it is rendered inside a message: name, a colon, the
/// value, then a semicolon.
pub open spec fn render_entry(e: (Seq<u8>, Seq<u8>)) -> Seq<u8> {
    render_bytes(e.0) + seq![0x3au8, 0x20] + render_bytes(e.1) + seq![0x3bu8, 0x20]
}

/// The headers of a response as they are rendered inside a message, in
/// order.
pub open spec fn render_entries(h: Seq<(Seq<u8>, Seq<u8>)>) -> Seq<u8>
    decreases h.len(),
{
    if h.len() == 0 {
        Seq::empty()
    } else {
        render_entry(h[0]) + render_entries(h.drop_first())
    }
}

/// A header collection as it is rendered inside a message, in braces.
pub open spec fn render_headers(h: Seq<(Seq<u8>, Seq<u8>)>) -> Seq<u8> {
    seq![0x7bu8] + render_entries(h) + seq![0x7du8]
}

proof fn lemma_render_entries_ascii(h: Seq<(Seq<u8>, Seq<u8>)>)
    ensures
        all_ascii(render_entries(h)),
    decreases h.len(),
{
    if h.len() > 0 {
        lemma_render_bytes_ascii(h[0].0);
        lemma_render_bytes_ascii(h[0].1);
        lemma_all_ascii_concat(render_bytes(h[0].0), seq![0x3au8, 0x20]);
        lemma_all_ascii_concat(
            render_bytes(h[0].0) + seq![0x3au8, 0x20],
            render_bytes(h[0].1),
        );
        lemma_all_ascii_concat(
            render_bytes(h[0].0) + seq![0x3au8, 0x20] + render_bytes(h[0].1),
            seq![0x3bu8, 0x20],
        );
        lemma_render_entries_ascii(h.drop_first());
        lemma_all_ascii_concat(render_entry(h[0]), render_entries(h.drop_first()));
    }
}

pub(crate) fn push_headers(h: &HeaderMap, out: &mut Vec<u8>)
    ensures
        final(out)@ == old(out)@ + render_headers(h@),
        all_ascii(old(out)@) ==> all_ascii(final(out)@),
{
    let ghost base: Seq<u8> = out@;
    out.push(0x7b);
    let mut i: usize = 0;
    proof {
        assert(h@.skip(0int) =~= h@);
        assert(out@ =~= base + seq![0x7bu8]);
    }
    while i < h.entries.len()
        invariant
            0 <= i <= h@.len(),
            h@.len() == h.entries@.len(),
            out@ + render_entries(h@.skip(i as int)) == base + seq![0x7bu8] + render_entries(h@),
        decreases h@.len() - i,
    {
        let ghost prev: Seq<u8> = out@;
        let ghost rest: Seq<(Seq<u8>, Seq<u8>)> = h@.skip(i as int);
        proof {
            assert(rest[0] == h@[i as int]);
            assert(h@[i as int] == (h.entries@[i as int].0@, h.entries@[i as int].1@));
            assert(rest.drop_first() =~= h@.skip(i as int + 1));
            assert(render_entries(rest) == render_entry(rest[0]) + render_entries(
                h@.skip(i as int + 1),
            ));
        }
        push_rendered(h.entries[i].0.as_slice(), out);
        out.push(0x3a);
        out.push(0x20);
        push_rendered(h.entries[i].1.as_slice(), out);
        out.push(0x3b);
        out.push(0x20);
        proof {
            assert(out@ =~= prev + render_entry(rest[0]));
            assert(out@ + render_entries(h@.skip(i as int + 1)) =~= base + seq![0x7bu8]
                + render_entries(h@));
        }
        i += 1;
    }
    out.push(0x7d);
    proof {
        assert(h@.skip(i as int) =~= Seq::<(Seq<u8>, Seq<u8>)>::empty());
        assert(out@ =~= base + render_headers(h@));
        if all_ascii(base) {
            lemma_render_entries_ascii(h@);
            lemma_all_ascii_concat(seq![0x7bu8], render_entries(h@));
            lemma_all_ascii_concat(seq![0x7bu8] + render_entries(h@), seq![0x7du8]);
            lemma_all_ascii_concat(base, render_headers(h@));
        }
    }
}

/// The bytes of `"Invalid Request: "`.
pub open spec fn invalid_request_prefix() -> Seq<u8> {
    seq![0x49u8, 0x6e, 0x76, 0x61, 0x6c, 0x69, 0x64, 0x20, 0x52, 0x65, 0x71, 0x75, 0x65, 0x73, 0x74, 0x3a, 0x20]
}

pub(crate) fn push_invalid_request_prefix(out: &mut Vec<u8>)
    ensures
        final(out)@ == old(out)@ + invalid_request_prefix(),
        all_ascii(old(out)@) ==> all_ascii(final(out)@),
{
    out.push(0x49);
    out.push(0x6e);
    out.push(0x76);
    out.push(0x61);
    out.push(0x6c);
    out.push(0x69);
    out.push(0x64);
    out.push(0x20);
    out.push(0x52);
    out.push(0x65);
    out.push(0x71);
    out.push(0x75);
    out.push(0x65);
    out.push(0x73);
    out.push(0x74);
    out.push(0x3a);
    out.push(0x20);
    proof {
        assert(out@ =~= old(out)@ + invalid_request_prefix());
        assert(all_ascii(invalid_request_prefix())) by {
            assert forall|j: int| 0 <= j < invalid_request_prefix().len() implies invalid_request_prefix()[j] < 0x80 by {
                assert(invalid_request_prefix().len() == 17);
            }
        }
        if all_ascii(old(out)@) {
            lemma_all_ascii_concat(old(out)@, invalid_request_prefix());
        }
    }
}

/// The bytes of `"Communication Error: "`.
pub open spec fn communication_error_prefix() -> Seq<u8> {
    seq![0x43u8, 0x6f, 0x6d, 0x6d, 0x75, 0x6e, 0x69, 0x63, 0x61, 0x74, 0x69, 0x6f, 0x6e, 0x20, 0x45, 0x72, 0x72, 0x6f, 0x72, 0x3a, 0x20]
}

pub(crate) fn push_communication_error_prefix(out: &mut Vec<u8>)
    ensures
        final(out)@ == old(out)@ + communication_error_prefix(),
        all_ascii(old(out)@) ==> all_ascii(final(out)@),
{
    out.push(0x43);
    out.push(0x6f);
    out.push(0x6d);
    out.push(0x6d);
    out.push(0x75);
    out.push(0x6e);
    out.push(0x69);
    out.push(0x63);
    out.push(0x61);
    out.push(0x74);
    out.push(0x69);
    out.push(0x6f);
    out.push(0x6e);
    out.push(0x20);
    out.push(0x45);
    out.push(0x72);
    out.push(0x72);
    out.push(0x6f);
    out.push(0x72);
    out.push(0x3a);
    out.push(0x20);
    proof {
        assert(out@ =~= old(out)@ + communication_error_prefix());
        assert(all_ascii(communication_error_prefix())) by {
            assert forall|j: int| 0 <= j < communication_error_prefix().len() implies communication_error_prefix()[j] < 0x80 by {
                assert(communication_error_prefix().len() == 21);
            }
        }
        if all_ascii(old(out)@) {
            lemma_all_ascii_concat(old(out)@, communication_error_prefix());
        }
    }
}

/// The bytes of `"Error Response: "`.
pub open spec fn error_response_prefix() -> Seq<u8> {
    seq![0x45u8, 0x72, 0x72, 0x6f, 0x72, 0x20, 0x52, 0x65, 0x73, 0x70, 0x6f, 0x6e, 0x73, 0x65, 0x3a, 0x20]
}

pub(crate) fn push_error_response_prefix(out: &mut Vec<u8>)
    ensures
        final(out)@ == old(out)@ + error_response_prefix(),
        all_ascii(old(out)@) ==> all_ascii(final(out)@),
{
    out.push(0x45);
    out.push(0x72);
    out.push(0x72);
    out.push(0x6f);
    out.push(0x72);
    out.push(0x20);
    out.push(0x52);
    out.push(0x65);
    out.push(0x73);
    out.push(0x70);
    out.push(0x6f);
    out.push(0x6e);
    out.push(0x73);
    out.push(0x65);
    out.push(0x3a);
    out.push(0x20);
    proof {
        assert(out@ =~= old(out)@ + error_response_prefix());
        assert(all_ascii(error_response_prefix())) by {
            assert forall|j: int| 0 <= j < error_response_prefix().len() implies error_response_prefix()[j] < 0x80 by {
                assert(error_response_prefix().len() == 16);
            }
        }
        if all_ascii(old(out)@) {
            lemma_all_ascii_concat(old(out)@, error_response_prefix());
        }
    }
}

/// The bytes of `"Invalid Response Payload: "`.
pub open spec fn invalid_payload_prefix() -> Seq<u8> {
    seq![0x49u8, 0x6e, 0x76, 0x61, 0x6c, 0x69, 0x64, 0x20, 0x52, 0x65, 0x73, 0x70, 0x6f, 0x6e, 0x73, 0x65, 0x20, 0x50, 0x61, 0x79, 0x6c, 0x6f, 0x61, 0x64, 0x3a, 0x20]
}

pub(crate) fn push_invalid_payload_prefix(out: &mut Vec<u8>)
    ensures
        final(out)@ == old(out)@ + invalid_payload_prefix(),
        all_ascii(old(out)@) ==> all_ascii(final(out)@),
{
    out.push(0x49);
    out.push(0x6e);
    out.push(0x76);
    out.push(0x61);
    out.push(0x6c);
    out.push(0x69);
    out.push(0x64);
    out.push(0x20);
    out.push(0x52);
    out.push(0x65);
    out.push(0x73);
    out.push(0x70);
    out.push(0x6f);
    out.push(0x6e);
    out.push(0x73);
    out.push(0x65);
    out.push(0x20);
    out.push(0x50);
    out.push(0x61);
    out.push(0x79);
    out.push(0x6c);
    out.push(0x6f);
    out.push(0x61);
    out.push(0x64);
    out.push(0x3a);
    out.push(0x20);
    proof {
        assert(out@ =~= old(out)@ + invalid_payload_prefix());
        assert(all_ascii(invalid_payload_prefix())) by {
            assert forall|j: int| 0 <= j < invalid_payload_prefix().len() implies invalid_payload_prefix()[j] < 0x80 by {
                assert(invalid_payload_prefix().len() == 26);
            }
        }
        if all_ascii(old(out)@) {
            lemma_all_ascii_concat(old(out)@, invalid_payload_prefix());
        }
    }
}

/// The bytes of `"Unexpected Response: "`.
pub open spec fn unexpected_response_prefix() -> Seq<u8> {
    seq![0x55u8, 0x6e, 0x65, 0x78, 0x70, 0x65, 0x63, 0x74, 0x65, 0x64, 0x20, 0x52, 0x65, 0x73, 0x70, 0x6f, 0x6e, 0x73, 0x65, 0x3a, 0x20]
}

pub(crate) fn push_unexpected_response_prefix(out: &mut Vec<u8>)
    ensures
        final(out)@ == old(out)@ + unexpected_response_prefix(),
        all_ascii(old(out)@) ==> all_ascii(final(out)@),
{
    out.push(0x55);
    out.push(0x6e);
    out.push(0x65);
    out.push(0x78);
    out.push(0x70);
    out.push(0x65);
    out.push(0x63);
    out.push(0x74);
    out.push(0x65);
    out.push(0x64);
    out.push(0x20);
    out.push(0x52);
    out.push(0x65);
    out.push(0x73);
    out.push(0x70);
    out.push(0x6f);
    out.push(0x6e);
    out.push(0x73);
    out.push(0x65);
    out.push(0x3a);
    out.push(0x20);
    proof {
        assert(out@ =~= old(out)@ + unexpected_response_prefix());
        assert(all_ascii(unexpected_response_prefix())) by {
            assert forall|j: int| 0 <= j < unexpected_response_prefix().len() implies unexpected_response_prefix()[j] < 0x80 by {
                assert(unexpected_response_prefix().len() == 21);
            }
        }
        if all_ascii(old(out)@) {
            lemma_all_ascii_concat(old(out)@, unexpected_response_prefix());
        }
    }
}

/// The bytes of `"status: "`.
pub open spec fn status_label() -> Seq<u8> {
    seq![0x73u8, 0x74, 0x61, 0x74, 0x75, 0x73, 0x3a, 0x20]
}

pub(crate) fn push_status_label(out: &mut Vec<u8>)
    ensures
        final(out)@ == old(out)@ + status_label(),
        all_ascii(old(out)@) ==> all_ascii(final(out)@),
{
    out.push(0x73);
    out.push(0x74);
    out.push(0x61);
    out.push(0x74);
    out.push(0x75);
    out.push(0x73);
    out.push(0x3a);
    out.push(0x20);
    proof {
        assert(out@ =~= old(out)@ + status_label());
        assert(all_ascii(status_label())) by {
            assert forall|j: int| 0 <= j < status_label().len() implies status_label()[j] < 0x80 by {
                assert(status_label().len() == 8);
            }
        }
        if all_ascii(old(out)@) {
            lemma_all_ascii_concat(old(out)@, status_label());
        }
    }
}

/// The bytes of `"; headers: "`.
pub open spec fn headers_label() -> Seq<u8> {
    seq![0x3bu8, 0x20, 0x68, 0x65, 0x61, 0x64, 0x65, 0x72, 0x73, 0x3a, 0x20]
}

pub(crate) fn push_headers_label(out: &mut Vec<u8>)
    ensures
        final(out)@ == old(out)@ + headers_label(),
        all_ascii(old(out)@) ==> all_ascii(final(out)@),
{
    out.push(0x3b);
    out.push(0x20);
    out.push(0x68);
    out.push(0x65);
    out.push(0x61);
    out.push(0x64);
    out.push(0x65);
    out.push(0x72);
    out.push(0x73);
    out.push(0x3a);
    out.push(0x20);
    proof {
        assert(out@ =~= old(out)@ + headers_label());
        assert(all_ascii(headers_label())) by {
            assert forall|j: int| 0 <= j < headers_label().len() implies headers_label()[j] < 0x80 by {
                assert(headers_label().len() == 11);
            }
        }
        if all_ascii(old(out)@) {
            lemma_all_ascii_concat(old(out)@, headers_label());
        }
    }
}

/// The bytes of `"; value: "`.
pub open spec fn value_label() -> Seq<u8> {
    seq![0x3bu8, 0x20, 0x76, 0x61, 0x6c, 0x75, 0x65, 0x3a, 0x20]
}

pub(crate) fn push_value_label(out: &mut Vec<u8>)
    ensures
        final(out)@ == old(out)@ + value_label(),
        all_ascii(old(out)@) ==> all_ascii(final(out)@),
{
    out.push(0x3b);
    out.push(0x20);
    out.push(0x76);
    out.push(0x61);
    out.push(0x6c);
    out.push(0x75);
    out.push(0x65);
    out.push(0x3a);
    out.push(0x20);
    proof {
        assert(out@ =~= old(out)@ + value_label());
        assert(all_ascii(value_label())) by {
            assert forall|j: int| 0 <= j < value_label().len() implies value_label()[j] < 0x80 by {
                assert(value_label().len() == 9);
            }
        }
        if all_ascii(old(out)@) {
            lemma_all_ascii_concat(old(out)@, value_label());
        }
    }
}

} // verus!
