//! Percent-encoding for `application/x-www-form-urlencoded` request bodies.
//!
//! Bytes that RFC 3986 lists as unreserved (letters, digits, `-`, `_`, `.`,
//! `~`) pass through unchanged; every other byte becomes `%XX` with uppercase
//! hex digits. A decoder for standard form-encoding is modelled as a spec
//! function so that the round-trip law can be stated and proved.

use vstd::prelude::*;

verus! {

/// Whether `b` is an RFC 3986 unreserved byte: a letter, a digit, or one of
/// `-`, `_`, `.`, `~`.
pub open spec fn is_unreserved_byte(b: u8) -> bool {
    (65 <= b <= 90)  // 'A'..='Z'
    || (97 <= b <= 122)  // 'a'..='z'
    || (48 <= b <= 57)  // '0'..='9'
    || b == 45  // '-'
    || b == 95  // '_'
    || b == 46  // '.'
    || b == 126  // '~'
}

/// The uppercase hex digit for a nibble `n < 16`.
pub open spec fn upper_hex_digit(n: u8) -> u8 {
    if n < 10 {
        (48 + n) as u8  // '0'..='9'
    } else {
        (55 + n) as u8  // 'A'..='F'
    }
}

/// The encoding of one byte: itself if unreserved, else `%` followed by its
/// two uppercase hex digits.
pub open spec fn percent_encode_byte(b: u8) -> Seq<u8> {
    if is_unreserved_byte(b) {
        seq![b]
    } else {
        seq![37u8, upper_hex_digit((b / 16) as u8), upper_hex_digit((b % 16) as u8)]
    }
}

/// The percent-encoding of a byte sequence: each byte encoded in order.
pub open spec fn percent_encode(s: Seq<u8>) -> Seq<u8>
    decreases s.len(),
{
    if s.len() == 0 {
        Seq::empty()
    } else {
        percent_encode_byte(s[0]) + percent_encode(s.drop_first())
    }
}

proof fn lemma_percent_encode_snoc(s: Seq<u8>, b: u8)
    ensures
        percent_encode(s.push(b)) == percent_encode(s) + percent_encode_byte(b),
    decreases s.len(),
{
    if s.len() == 0 {
        assert(s.push(b)[0] == b);
        assert(s.push(b).drop_first() =~= Seq::<u8>::empty());
        assert(percent_encode(Seq::<u8>::empty()) == Seq::<u8>::empty());
        assert(percent_encode(s.push(b)) == percent_encode_byte(b) + percent_encode(
            s.push(b).drop_first(),
        ));
        assert(percent_encode(s.push(b)) =~= percent_encode_byte(b));
        assert(percent_encode(s) + percent_encode_byte(b) =~= percent_encode_byte(b));
    } else {
        assert(s.push(b)[0] == s[0]);
        assert(s.push(b).drop_first() =~= s.drop_first().push(b));
        lemma_percent_encode_snoc(s.drop_first(), b);
        assert(percent_encode(s.push(b)) =~= percent_encode(s) + percent_encode_byte(b));
    }
}

/// Percent-encode `s` per the unreserved-byte rule: letters, digits and
/// `-_.~` pass through; every other byte becomes `%XX` with uppercase hex.
pub fn url_encode(s: &[u8]) -> (r: Vec<u8>)
    ensures
        r@ == percent_encode(s@),
{
    let mut out: Vec<u8> = Vec::new();
    let mut i: usize = 0;
    while i < s.len()
        invariant
            i <= s.len(),
            out@ == percent_encode(s@.take(i as int)),
        decreases s.len() - i,
    {
        let b = s[i];
        proof {
            assert(s@.take(i + 1 as int) =~= s@.take(i as int).push(s@[i as int]));
            lemma_percent_encode_snoc(s@.take(i as int), b);
        }
        if (65 <= b && b <= 90) || (97 <= b && b <= 122) || (48 <= b && b <= 57) || b == 45
            || b == 95 || b == 46 || b == 126 {
            out.push(b);
            assert(out@ =~= percent_encode(s@.take(i + 1 as int)));
        } else {
            out.push(37);
            out.push(hex_digit_upper(b / 16));
            out.push(hex_digit_upper(b % 16));
            assert(out@ =~= percent_encode(s@.take(i + 1 as int)));
        }
        i = i + 1;
    }
    proof {
        assert(s@.take(s@.len() as int) =~= s@);
    }
    out
}

fn hex_digit_upper(n: u8) -> (r: u8)
    requires
        n < 16,
    ensures
        r == upper_hex_digit(n),
{
    if n < 10 {
        48 + n
    } else {
        55 + n
    }
}

/// Whether `b` is an ASCII hex digit, either case.
pub open spec fn is_hex_digit(b: u8) -> bool {
    (48 <= b <= 57) || (65 <= b <= 70) || (97 <= b <= 102)
}

/// The value of a hex digit byte, either case.
pub open spec fn hex_digit_value(b: u8) -> int {
    if 48 <= b <= 57 {
        b - 48
    } else if 65 <= b <= 70 {
        b - 55
    } else {
        b - 87
    }
}

/// A standard form-encoding decoder, as the provider applies it to a request
/// body: `%XX` becomes the byte the two hex digits spell, `+` becomes a
/// space, any other byte stands for itself; a `%` not followed by two hex
/// digits is malformed.
pub open spec fn form_decode(s: Seq<u8>) -> Option<Seq<u8>>
    decreases s.len(),
{
    if s.len() == 0 {
        Some(Seq::empty())
    } else if s[0] == 37 {  // '%'
        if s.len() >= 3 && is_hex_digit(s[1]) && is_hex_digit(s[2]) {
            match form_decode(s.skip(3)) {
                Some(r) => Some(
                    seq![(hex_digit_value(s[1]) * 16 + hex_digit_value(s[2])) as u8] + r,
                ),
                None => None,
            }
        } else {
            None
        }
    } else if s[0] == 43 {  // '+'
        match form_decode(s.drop_first()) {
            Some(r) => Some(seq![32u8] + r),
            None => None,
        }
    } else {
        match form_decode(s.drop_first()) {
            Some(r) => Some(seq![s[0]] + r),
            None => None,
        }
    }
}

/// Round-trip law: percent-encoding any byte sequence and then decoding it
/// as standard form-encoding recovers the original sequence exactly.
pub proof fn lemma_form_decode_of_percent_encode(s: Seq<u8>)
    ensures
        form_decode(percent_encode(s)) == Some(s),
    decreases s.len(),
{
    if s.len() == 0 {
    } else {
        let b = s[0];
        let rest = s.drop_first();
        lemma_form_decode_of_percent_encode(rest);
        let e = percent_encode(s);
        if is_unreserved_byte(b) {
            assert(e[0] == b);
            assert(b != 37 && b != 43);
            assert(e.drop_first() =~= percent_encode(rest));
            assert(form_decode(e) == Some(seq![b] + rest));
            assert(seq![b] + rest =~= s);
        } else {
            let hi = (b / 16) as u8;
            let lo = (b % 16) as u8;
            assert(hi < 16 && lo < 16);
            assert(e[0] == 37);
            assert(e.len() >= 3);
            assert(e[1] == upper_hex_digit(hi));
            assert(e[2] == upper_hex_digit(lo));
            assert(is_hex_digit(upper_hex_digit(hi)));
            assert(is_hex_digit(upper_hex_digit(lo)));
            assert(hex_digit_value(upper_hex_digit(hi)) == hi as int);
            assert(hex_digit_value(upper_hex_digit(lo)) == lo as int);
            assert(hi as int * 16 + lo as int == b as int) by {
                assert(b as int == (b as int / 16) * 16 + b as int % 16) by (nonlinear_arith);
                assert(hi as int == b as int / 16);
                assert(lo as int == b as int % 16);
            }
            assert(e.skip(3) =~= percent_encode(rest));
            assert(form_decode(e) == Some(seq![b] + rest));
            assert(seq![b] + rest =~= s);
        }
    }
}

/// The encoding of one form field, `name=value`, each side percent-encoded.
pub open spec fn encoded_field(name: Seq<u8>, value: Seq<u8>) -> Seq<u8> {
    percent_encode(name) + seq![61u8] + percent_encode(value)
}

/// The encoding of a whole form body: the encoded fields joined by `&`.
pub open spec fn form_encoding(fields: Seq<(Seq<u8>, Seq<u8>)>) -> Seq<u8>
    decreases fields.len(),
{
    if fields.len() == 0 {
        Seq::empty()
    } else if fields.len() == 1 {
        encoded_field(fields[0].0, fields[0].1)
    } else {
        encoded_field(fields[0].0, fields[0].1) + seq![38u8] + form_encoding(fields.drop_first())
    }
}

/// The name/value views of a vector of byte-string pairs.
pub open spec fn fields_view(fields: Seq<(Vec<u8>, Vec<u8>)>) -> Seq<(Seq<u8>, Seq<u8>)> {
    fields.map_values(|f: (Vec<u8>, Vec<u8>)| (f.0@, f.1@))
}

proof fn lemma_form_encoding_snoc(fields: Seq<(Seq<u8>, Seq<u8>)>, f: (Seq<u8>, Seq<u8>))
    ensures
        fields.len() == 0 ==> form_encoding(fields.push(f)) == encoded_field(f.0, f.1),
        fields.len() > 0 ==> form_encoding(fields.push(f)) == form_encoding(fields) + seq![38u8]
            + encoded_field(f.0, f.1),
    decreases fields.len(),
{
    if fields.len() == 0 {
        assert(fields.push(f)[0] == f);
    } else {
        assert(fields.push(f).drop_first() =~= fields.drop_first().push(f));
        assert(fields.push(f)[0] == fields[0]);
        lemma_form_encoding_snoc(fields.drop_first(), f);
        assert(form_encoding(fields.push(f)) =~= form_encoding(fields) + seq![38u8]
            + encoded_field(f.0, f.1));
    }
}

/// Encode a form body from name/value pairs: each side percent-encoded,
/// joined as `name=value` pairs separated by `&`.
pub fn encode_form(fields: &Vec<(Vec<u8>, Vec<u8>)>) -> (r: Vec<u8>)
    ensures
        r@ == form_encoding(fields_view(fields@)),
{
    let ghost fs = fields_view(fields@);
    let mut out: Vec<u8> = Vec::new();
    let mut i: usize = 0;
    while i < fields.len()
        invariant
            i <= fields.len(),
            fs == fields_view(fields@),
            fs.len() == fields@.len(),
            out@ == form_encoding(fs.take(i as int)),
        decreases fields.len() - i,
    {
        proof {
            assert(fs[i as int] == (fields@[i as int].0@, fields@[i as int].1@));
            assert(fs.take(i + 1 as int) =~= fs.take(i as int).push(fs[i as int]));
            lemma_form_encoding_snoc(fs.take(i as int), fs[i as int]);
        }
        if i > 0 {
            out.push(38);
        }
        let mut encoded_name = url_encode(fields[i].0.as_slice());
        out.append(&mut encoded_name);
        out.push(61);
        let mut encoded_value = url_encode(fields[i].1.as_slice());
        out.append(&mut encoded_value);
        i = i + 1;
        assert(out@ =~= form_encoding(fs.take(i as int)));
    }
    proof {
        assert(fs.take(fs.len() as int) =~= fs);
    }
    out
}

} // verus!
