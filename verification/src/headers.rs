use vstd::prelude::*;

verus! {

/// Lower-cases one ASCII byte; header names compare case-insensitively.
pub open spec fn lower_byte(b: u8) -> u8 {
    if 0x41 <= b && b <= 0x5a {
        (b + 0x20) as u8
    } else {
        b
    }
}

/// Lower-cases a byte string.
pub open spec fn lower_bytes(s: Seq<u8>) -> Seq<u8> {
    s.map_values(|b: u8| lower_byte(b))
}

/// Two header names are the same up to ASCII case.
pub open spec fn name_matches(a: Seq<u8>, b: Seq<u8>) -> bool {
    lower_bytes(a) == lower_bytes(b)
}

/// The value of the first header whose name matches `name`, if any.
pub open spec fn first_value(h: Seq<(Seq<u8>, Seq<u8>)>, name: Seq<u8>) -> Option<Seq<u8>>
    decreases h.len(),
{
    if h.len() == 0 {
        None
    } else if name_matches(h[0].0, name) {
        Some(h[0].1)
    } else {
        first_value(h.drop_first(), name)
    }
}

fn lower_ascii(b: u8) -> (r: u8)
    ensures
        r == lower_byte(b),
{
    if 0x41 <= b && b <= 0x5a {
        b + 0x20
    } else {
        b
    }
}

fn eq_ignore_ascii_case(a: &[u8], b: &[u8]) -> (r: bool)
    ensures
        r == name_matches(a@, b@),
{
    if a.len() != b.len() {
        assert(lower_bytes(a@).len() != lower_bytes(b@).len());
        return false;
    }
    let mut i: usize = 0;
    while i < a.len()
        invariant
            a@.len() == b@.len(),
            0 <= i <= a@.len(),
            forall|j: int| 0 <= j < i ==> lower_byte(a@[j]) == lower_byte(b@[j]),
        decreases a@.len() - i,
    {
        let x = lower_ascii(a[i]);
        let y = lower_ascii(b[i]);
        if x != y {
            assert(lower_bytes(a@)[i as int] != lower_bytes(b@)[i as int]);
            return false;
        }
        i += 1;
    }
    proof {
        assert(lower_bytes(a@) =~= lower_bytes(b@));
    }
    true
}

/// Ordered multi-map of header names to header values, both byte strings,
/// captured verbatim from the response that produced it.
#[derive(Debug, Clone)]
pub struct HeaderMap {
    pub entries: Vec<(Vec<u8>, Vec<u8>)>,
}

impl View for HeaderMap {
    type V = Seq<(Seq<u8>, Seq<u8>)>;

    open spec fn view(&self) -> Seq<(Seq<u8>, Seq<u8>)> {
        self.entries@.map_values(|e: (Vec<u8>, Vec<u8>)| (e.0@, e.1@))
    }
}

impl HeaderMap {
    /// Creates an empty header map.
    pub fn new() -> (r: HeaderMap)
        ensures
            r@ == Seq::<(Seq<u8>, Seq<u8>)>::empty(),
    {
        let r = HeaderMap { entries: Vec::new() };
        proof {
            assert(r@ =~= Seq::<(Seq<u8>, Seq<u8>)>::empty());
        }
        r
    }

    /// The number of headers held.
    pub fn len(&self) -> (r: usize)
        ensures
            r == self@.len(),
    {
        self.entries.len()
    }

    /// Appends one header, keeping any headers of the same name already present.
    pub fn append(&mut self, name: Vec<u8>, value: Vec<u8>)
        ensures
            final(self)@ == old(self)@.push((name@, value@)),
    {
        self.entries.push((name, value));
        proof {
            assert(self@ =~= old(self)@.push((name@, value@)));
        }
    }

    /// The value of the first header whose name matches `name` up to ASCII
    /// case, if any.
    pub fn get_first(&self, name: &[u8]) -> (r: Option<&Vec<u8>>)
        ensures
            match r {
                Some(v) => first_value(self@, name@) == Some(v@),
                None => first_value(self@, name@) is None,
            },
    {
        let mut i: usize = 0;
        proof {
            assert(self@.skip(0int) =~= self@);
        }
        while i < self.entries.len()
            invariant
                0 <= i <= self.entries@.len(),
                first_value(self@, name@) == first_value(self@.skip(i as int), name@),
            decreases self.entries@.len() - i,
        {
            assert(self@.skip(i as int)[0] == self@[i as int]);
            if eq_ignore_ascii_case(self.entries[i].0.as_slice(), name) {
                return Some(&self.entries[i].1);
            }
            proof {
                assert(self@.skip(i as int).drop_first() =~= self@.skip(i as int + 1));
            }
            i += 1;
        }
        proof {
            assert(self@.skip(i as int) =~= Seq::<(Seq<u8>, Seq<u8>)>::empty());
        }
        None
    }
}

/// Is `b` an ASCII digit?
pub open spec fn is_digit(b: u8) -> bool {
    0x30 <= b && b <= 0x39
}

/// Every byte of `s` is an ASCII digit.
pub open spec fn all_digits(s: Seq<u8>) -> bool {
    forall|i: int| 0 <= i < s.len() ==> is_digit(#[trigger] s[i])
}

/// Numeric value of a string of ASCII digits, most significant first.
pub open spec fn digits_val(s: Seq<u8>) -> int
    decreases s.len(),
{
    if s.len() == 0 {
        0int
    } else {
        digits_val(s.drop_last()) * 10 + s.last() - 0x30
    }
}

/// The digit portion of a decimal literal: everything after one optional
/// leading `+` sign.
pub open spec fn digits_part(s: Seq<u8>) -> Seq<u8> {
    if s.len() > 0 && s[0] == 0x2b {
        s.drop_first()
    } else {
        s
    }
}

/// What parsing a header value as a non-negative decimal integer yields:
/// the numeric value where the bytes are an optional `+` followed by one or
/// more ASCII digits whose value fits in a `u64`; nothing in every other case.
pub open spec fn spec_parse_content_length(s: Seq<u8>) -> Option<u64> {
    let d = digits_part(s);
    if d.len() > 0 && all_digits(d) && digits_val(d) <= u64::MAX {
        Some(digits_val(d) as u64)
    } else {
        None
    }
}

proof fn lemma_digits_val_nonneg(s: Seq<u8>)
    requires
        all_digits(s),
    ensures
        digits_val(s) >= 0,
    decreases s.len(),
{
    if s.len() > 0 {
        assert(all_digits(s.drop_last())) by {
            assert(forall|i: int|
                0 <= i < s.drop_last().len() ==> #[trigger] s.drop_last()[i] == s[i]);
        }
        lemma_digits_val_nonneg(s.drop_last());
    }
}

proof fn lemma_digits_val_take_le(s: Seq<u8>, j: int)
    requires
        all_digits(s),
        0 <= j <= s.len(),
    ensures
        digits_val(s.take(j)) <= digits_val(s),
    decreases s.len() - j,
{
    assert(all_digits(s.take(j))) by {
        assert(forall|i: int| 0 <= i < s.take(j).len() ==> #[trigger] s.take(j)[i] == s[i]);
    }
    if j < s.len() {
        assert(s.take(j + 1).drop_last() =~= s.take(j));
        assert(s.take(j + 1).last() == s[j]);
        lemma_digits_val_nonneg(s.take(j));
        assert(digits_val(s.take(j)) <= digits_val(s.take(j + 1)));
        lemma_digits_val_take_le(s, j + 1);
    } else {
        assert(s.take(j) =~= s);
    }
}

/// Parses a header value the way the content-length header is read: an
/// optional leading `+`, then one or more ASCII digits whose value fits in
/// a `u64`. Anything else yields nothing; this never fails.
pub fn parse_content_length(s: &[u8]) -> (r: Option<u64>)
    ensures
        r == spec_parse_content_length(s@),
{
    let ghost d: Seq<u8> = digits_part(s@);
    let start: usize = if s.len() > 0 && s[0] == 0x2b {
        1
    } else {
        0
    };
    proof {
        assert(d =~= s@.skip(start as int));
    }
    if s.len() == start {
        return None;
    }
    let mut acc: u64 = 0;
    let mut i: usize = start;
    while i < s.len()
        invariant
            start <= i <= s@.len(),
            d == digits_part(s@),
            d == s@.skip(start as int),
            d.len() == s@.len() - start,
            all_digits(d.take(i - start)),
            acc == digits_val(d.take(i - start)),
        decreases s@.len() - i,
    {
        let ghost k: int = i - start;
        assert(d[k] == s@[i as int]);
        let b = s[i];
        if b < 0x30 || b > 0x39 {
            proof {
                assert(!is_digit(d[k]));
                assert(!all_digits(d));
                assert(spec_parse_content_length(s@) == None::<u64>);
            }
            return None;
        }
        let digit: u64 = (b - 0x30) as u64;
        proof {
            assert(d.take(k + 1).drop_last() =~= d.take(k));
            assert(d.take(k + 1).last() == d[k]);
            assert(digits_val(d.take(k + 1)) == acc * 10 + digit);
            assert(all_digits(d.take(k + 1))) by {
                assert(forall|q: int|
                    0 <= q < d.take(k + 1).len() ==> #[trigger] d.take(k + 1)[q] == d[q]);
            }
        }
        let next = match acc.checked_mul(10) {
            Some(m) => m.checked_add(digit),
            None => None,
        };
        match next {
            Some(v) => {
                acc = v;
            },
            None => {
                proof {
                    assert(digits_val(d.take(k + 1)) > u64::MAX);
                    if all_digits(d) {
                        lemma_digits_val_take_le(d, k + 1);
                        assert(digits_val(d) > u64::MAX);
                    }
                    assert(spec_parse_content_length(s@) == None::<u64>);
                }
                return None;
            },
        }
        i += 1;
    }
    proof {
        assert(d.take(i - start) =~= d);
    }
    Some(acc)
}

} // verus!
