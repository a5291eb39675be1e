//! The signed-webhook verifier: parsing of the provider's signature header,
//! timestamp parsing, the constant-time comparison, and the acceptance
//! decision with its replay window.
//!
//! A signature header has the form `t=<unix-seconds>,v1=<hex-hmac>` with any
//! number of further comma-separated fields; unrecognized fields are ignored,
//! several `v1=` entries may be present at once (as during secret rotation),
//! and a later `t=` entry overrides an earlier one.

use vstd::prelude::*;

use crate::crypto::{hex_lower, hmac_sha256_hex, hmac_sha256_of};
use crate::error::ApiError;

verus! {

// --- The header grammar, as spec functions over the raw bytes ---

/// The index of the first comma in `s`, or `s.len()` if there is none.
pub open spec fn comma_index(s: Seq<u8>) -> nat
    decreases s.len(),
{
    if s.len() == 0 {
        0
    } else if s[0] == 44 {  // ','
        0
    } else {
        (1 + comma_index(s.drop_first())) as nat
    }
}

/// The comma-separated fields of a header, in order. An empty header is one
/// empty field, as splitting on commas gives it.
pub open spec fn header_fields(s: Seq<u8>) -> Seq<Seq<u8>>
    decreases s.len(),
{
    let i = comma_index(s);
    if i >= s.len() {
        seq![s]
    } else {
        seq![s.take(i as int)] + header_fields(s.skip(i + 1 as int))
    }
}

/// Whether `b` is ASCII whitespace: space, tab, line feed, carriage return.
pub open spec fn is_ws(b: u8) -> bool {
    b == 32 || b == 9 || b == 10 || b == 13
}

/// `s` without its leading whitespace.
pub open spec fn trim_front(s: Seq<u8>) -> Seq<u8>
    decreases s.len(),
{
    if s.len() > 0 && is_ws(s[0]) {
        trim_front(s.drop_first())
    } else {
        s
    }
}

/// `s` without its trailing whitespace.
pub open spec fn trim_back(s: Seq<u8>) -> Seq<u8>
    decreases s.len(),
{
    if s.len() > 0 && is_ws(s[s.len() - 1]) {
        trim_back(s.drop_last())
    } else {
        s
    }
}

/// `s` without leading and trailing whitespace.
pub open spec fn trim_ws(s: Seq<u8>) -> Seq<u8> {
    trim_back(trim_front(s))
}

/// The timestamp a single field contributes: the remainder after a `t=`
/// prefix of the trimmed field, if it has one.
pub open spec fn timestamp_of_field(f: Seq<u8>) -> Option<Seq<u8>> {
    let t = trim_ws(f);
    if t.len() >= 2 && t[0] == 116 && t[1] == 61 {  // "t="
        Some(t.skip(2))
    } else {
        None
    }
}

/// The signature candidate a single field contributes: the remainder after a
/// `v1=` prefix of the trimmed field, if it has one.
pub open spec fn signature_of_field(f: Seq<u8>) -> Option<Seq<u8>> {
    let t = trim_ws(f);
    if t.len() >= 3 && t[0] == 118 && t[1] == 49 && t[2] == 61 {  // "v1="
        Some(t.skip(3))
    } else {
        None
    }
}

/// The timestamp of a field list: the last `t=` field wins.
pub open spec fn timestamp_of_fields(fs: Seq<Seq<u8>>) -> Option<Seq<u8>>
    decreases fs.len(),
{
    if fs.len() == 0 {
        None
    } else {
        match timestamp_of_field(fs.last()) {
            Some(t) => Some(t),
            None => timestamp_of_fields(fs.drop_last()),
        }
    }
}

/// The signature candidates of a field list, in field order.
pub open spec fn signatures_of_fields(fs: Seq<Seq<u8>>) -> Seq<Seq<u8>>
    decreases fs.len(),
{
    if fs.len() == 0 {
        Seq::empty()
    } else {
        signatures_of_fields(fs.drop_last()) + match signature_of_field(fs.last()) {
            Some(v) => seq![v],
            None => Seq::<Seq<u8>>::empty(),
        }
    }
}

/// The timestamp bytes of a raw header, if any field carries one.
pub open spec fn header_timestamp(h: Seq<u8>) -> Option<Seq<u8>> {
    timestamp_of_fields(header_fields(h))
}

/// The signature candidates of a raw header, in order.
pub open spec fn header_signatures(h: Seq<u8>) -> Seq<Seq<u8>> {
    signatures_of_fields(header_fields(h))
}

// --- Timestamp parsing, with the exact overflow behaviour of a 64-bit parse ---

/// Whether `b` is an ASCII decimal digit.
pub open spec fn is_digit(b: u8) -> bool {
    48 <= b <= 57
}

/// Fold decimal digits into a non-positive accumulator (so that the most
/// negative 64-bit value is reachable); `None` on a non-digit byte or when
/// the accumulated value falls below the 64-bit minimum.
pub open spec fn parse_i64_digits(s: Seq<u8>, acc: int) -> Option<int>
    decreases s.len(),
{
    if s.len() == 0 {
        Some(acc)
    } else if !is_digit(s[0]) {
        None
    } else {
        let acc2 = acc * 10 - (s[0] - 48);
        if acc2 < i64::MIN {
            None
        } else {
            parse_i64_digits(s.drop_first(), acc2)
        }
    }
}

/// The value of `s` read as a decimal 64-bit integer with an optional sign,
/// exactly as the standard parse reads it: `None` when empty, when any byte
/// after the sign is not a digit, or when the value overflows.
pub open spec fn parse_i64_spec(s: Seq<u8>) -> Option<int> {
    if s.len() == 0 {
        None
    } else if s[0] == 45 {  // '-'
        if s.len() == 1 {
            None
        } else {
            parse_i64_digits(s.drop_first(), 0)
        }
    } else if s[0] == 43 {  // '+'
        if s.len() == 1 {
            None
        } else {
            match parse_i64_digits(s.drop_first(), 0) {
                Some(a) => if -a <= i64::MAX {
                    Some(-a)
                } else {
                    None
                },
                None => None,
            }
        }
    } else {
        match parse_i64_digits(s, 0) {
            Some(a) => if -a <= i64::MAX {
                Some(-a)
            } else {
                None
            },
            None => None,
        }
    }
}

/// Parse `s` as a decimal 64-bit integer with an optional leading sign.
pub fn parse_i64(s: &[u8]) -> (r: Option<i64>)
    ensures
        r is Some <==> parse_i64_spec(s@) is Some,
        r is Some ==> r.unwrap() as int == parse_i64_spec(s@).unwrap(),
{
    if s.len() == 0 {
        return None;
    }
    let first = s[0];
    let negative: bool = first == 45;
    let start: usize = if first == 45 || first == 43 {
        1
    } else {
        0
    };
    if start == 1 && s.len() == 1 {
        return None;
    }
    proof {
        assert(s@.drop_first() =~= s@.skip(1));
        assert(s@.skip(0) =~= s@);
    }
    let mut acc: i64 = 0;
    let mut i: usize = start;
    while i < s.len()
        invariant
            start <= i <= s.len(),
            (start as int) < s@.len(),
            start <= 1,
            negative == (s@[0] == 45),
            (s@[0] == 45 || s@[0] == 43) ==> start == 1,
            !(s@[0] == 45 || s@[0] == 43) ==> start == 0,
            i64::MIN <= acc <= 0,
            parse_i64_digits(s@.skip(start as int), 0) == parse_i64_digits(
                s@.skip(i as int),
                acc as int,
            ),
        decreases s.len() - i,
    {
        let b = s[i];
        proof {
            assert(s@.skip(i as int)[0] == s@[i as int]);
            assert(s@.skip(i as int).drop_first() =~= s@.skip(i + 1 as int));
            assert(s@.drop_first() =~= s@.skip(1));
            assert(s@.skip(0) =~= s@);
        }
        if b < 48 || b > 57 {
            return None;
        }
        let wide: i128 = (acc as i128) * 10 - ((b - 48) as i128);
        if wide < i64::MIN as i128 {
            return None;
        }
        acc = wide as i64;
        i = i + 1;
    }
    proof {
        assert(s@.skip(s@.len() as int) =~= Seq::<u8>::empty());
    }
    if negative {
        Some(acc)
    } else {
        if acc == i64::MIN {
            None
        } else {
            proof {
                if start == 0 {
                    assert(s@.skip(0) =~= s@);
                }
            }
            Some(-acc)
        }
    }
}

// --- Verified byte utilities ---

/// Compare two byte strings in constant time over their common length: a
/// length mismatch answers at once, and otherwise every position is folded
/// into one accumulator so that no position short-circuits.
pub fn timing_safe_eq(a: &[u8], b: &[u8]) -> (r: bool)
    ensures
        r == (a@ == b@),
{
    if a.len() != b.len() {
        assert(a@ != b@);
        return false;
    }
    let mut diff: u8 = 0;
    let mut i: usize = 0;
    proof {
        assert(a@.subrange(0, 0) =~= b@.subrange(0, 0));
    }
    while i < a.len()
        invariant
            i <= a.len(),
            a@.len() == b@.len(),
            (diff == 0) == (a@.subrange(0, i as int) == b@.subrange(0, i as int)),
        decreases a.len() - i,
    {
        let x = a[i];
        let y = b[i];
        let ghost old_diff = diff;
        diff = diff | (x ^ y);
        proof {
            assert((old_diff | (x ^ y) == 0) == (old_diff == 0 && x == y)) by (bit_vector);
            assert(a@.subrange(0, i + 1 as int) =~= a@.subrange(0, i as int).push(a@[i as int]));
            assert(b@.subrange(0, i + 1 as int) =~= b@.subrange(0, i as int).push(b@[i as int]));
            if old_diff == 0 && x == y {
                assert(a@.subrange(0, i + 1 as int) =~= b@.subrange(0, i + 1 as int));
            } else {
                if a@.subrange(0, i + 1 as int) == b@.subrange(0, i + 1 as int) {
                    assert(a@.subrange(0, i as int) =~= a@.subrange(0, i + 1 as int).subrange(
                        0,
                        i as int,
                    ));
                    assert(b@.subrange(0, i as int) =~= b@.subrange(0, i + 1 as int).subrange(
                        0,
                        i as int,
                    ));
                    assert(a@[i as int] == a@.subrange(0, i + 1 as int)[i as int]);
                    assert(false);
                }
            }
        }
        i = i + 1;
    }
    proof {
        assert(a@.subrange(0, a@.len() as int) =~= a@);
        assert(b@.subrange(0, b@.len() as int) =~= b@);
    }
    diff == 0
}

fn is_ws_byte(b: u8) -> (r: bool)
    ensures
        r == is_ws(b),
{
    b == 32 || b == 9 || b == 10 || b == 13
}

proof fn lemma_trim_front_skip(s: Seq<u8>, n: int)
    requires
        0 <= n <= s.len(),
        forall|k: int| 0 <= k < n ==> is_ws(s[k]),
        n < s.len() ==> !is_ws(s[n]),
    ensures
        trim_front(s) == s.skip(n),
    decreases n,
{
    if n == 0 {
        assert(s.skip(0) =~= s);
    } else {
        assert(is_ws(s[0]));
        lemma_trim_front_skip(s.drop_first(), n - 1);
        assert(s.drop_first().skip(n - 1) =~= s.skip(n));
    }
}

proof fn lemma_trim_back_take(s: Seq<u8>, m: int)
    requires
        0 <= m <= s.len(),
        forall|k: int| m <= k < s.len() ==> is_ws(s[k]),
        m > 0 ==> !is_ws(s[m - 1]),
    ensures
        trim_back(s) == s.take(m),
    decreases s.len(),
{
    if m == s.len() {
        assert(s.take(m) =~= s);
        if s.len() > 0 {
            assert(!is_ws(s[s.len() - 1]));
        }
    } else {
        assert(is_ws(s[s.len() - 1]));
        lemma_trim_back_take(s.drop_last(), m);
        assert(s.drop_last().take(m) =~= s.take(m));
    }
}

/// Copy `s` without its leading and trailing ASCII whitespace.
fn trim_bytes(s: &[u8]) -> (r: Vec<u8>)
    ensures
        r@ == trim_ws(s@),
{
    let mut lo: usize = 0;
    while lo < s.len() && is_ws_byte(s[lo])
        invariant
            lo <= s.len(),
            forall|k: int| 0 <= k < lo ==> is_ws(s@[k]),
        decreases s.len() - lo,
    {
        lo = lo + 1;
    }
    let mut hi: usize = s.len();
    while hi > lo && is_ws_byte(s[hi - 1])
        invariant
            lo <= hi <= s.len(),
            forall|k: int| hi <= k < s@.len() ==> is_ws(s@[k]),
        decreases hi,
    {
        hi = hi - 1;
    }
    proof {
        lemma_trim_front_skip(s@, lo as int);
        lemma_trim_back_take(s@.skip(lo as int), hi - lo as int);
        assert(s@.skip(lo as int).take(hi - lo as int) =~= s@.subrange(lo as int, hi as int));
    }
    vstd::slice::slice_to_vec(vstd::slice::slice_subrange(s, lo, hi))
}

proof fn lemma_comma_index_at(s: Seq<u8>, n: int)
    requires
        0 <= n <= s.len(),
        forall|k: int| 0 <= k < n ==> s[k] != 44,
        n < s.len() ==> s[n] == 44,
    ensures
        comma_index(s) == n,
    decreases n,
{
    if s.len() == 0 {
    } else if n == 0 {
    } else {
        lemma_comma_index_at(s.drop_first(), n - 1);
    }
}

// --- The header parser ---

/// Parse a signature header into its timestamp bytes (the last `t=` field
/// wins) and its `v1=` signature candidates, in order; every other field is
/// ignored.
pub fn parse_signature_header(h: &[u8]) -> (r: (Option<Vec<u8>>, Vec<Vec<u8>>))
    ensures
        r.0 is Some <==> header_timestamp(h@) is Some,
        r.0 is Some ==> r.0.unwrap()@ == header_timestamp(h@).unwrap(),
        r.1@.len() == header_signatures(h@).len(),
        forall|i: int| 0 <= i < r.1@.len() ==> r.1@[i]@ == header_signatures(h@)[i],
{
    let mut ts: Option<Vec<u8>> = None;
    let mut sigs: Vec<Vec<u8>> = Vec::new();
    let mut p: usize = 0;
    let ghost mut processed: Seq<Seq<u8>> = Seq::empty();
    proof {
        assert(h@.skip(0) =~= h@);
        assert(processed + header_fields(h@) =~= header_fields(h@));
    }
    loop
        invariant_except_break
            header_fields(h@) == processed + header_fields(h@.skip(p as int)),
        invariant
            p <= h@.len(),
            ts is Some <==> timestamp_of_fields(processed) is Some,
            ts is Some ==> ts.unwrap()@ == timestamp_of_fields(processed).unwrap(),
            sigs@.len() == signatures_of_fields(processed).len(),
            forall|i: int| 0 <= i < sigs@.len() ==> sigs@[i]@ == signatures_of_fields(processed)[i],
        ensures
            header_fields(h@) == processed,
        decreases h@.len() - p,
    {
        let mut j: usize = p;
        while j < h.len() && h[j] != 44
            invariant
                p <= j <= h@.len(),
                forall|k: int| p <= k < j ==> h@[k] != 44,
            decreases h.len() - j,
        {
            j = j + 1;
        }
        proof {
            let rem = h@.skip(p as int);
            assert forall|k: int| 0 <= k < j - p implies rem[k] != 44 by {
                assert(rem[k] == h@[p + k]);
            }
            if (j as int) < h@.len() {
                assert(rem[j - p] == h@[j as int]);
            }
            lemma_comma_index_at(rem, j - p as int);
        }
        let field = vstd::slice::slice_to_vec(vstd::slice::slice_subrange(h, p, j));
        proof {
            let rem = h@.skip(p as int);
            if j == h@.len() {
                assert(field@ =~= rem);
                assert(header_fields(rem) == seq![rem]);
            } else {
                assert(rem.take(j - p as int) =~= field@);
                assert(rem.skip(j - p + 1 as int) =~= h@.skip(j + 1 as int));
                assert(header_fields(rem) == seq![field@] + header_fields(h@.skip(j + 1 as int)));
            }
            assert(processed.push(field@).drop_last() =~= processed);
            assert(processed.push(field@).last() == field@);
        }
        let trimmed = trim_bytes(field.as_slice());
        if trimmed.len() >= 2 && trimmed[0] == 116 && trimmed[1] == 61 {
            let value = vstd::slice::slice_to_vec(
                vstd::slice::slice_subrange(trimmed.as_slice(), 2, trimmed.len()),
            );
            proof {
                assert(trimmed@.subrange(2, trimmed@.len() as int) =~= trim_ws(field@).skip(2));
            }
            ts = Some(value);
        } else if trimmed.len() >= 3 && trimmed[0] == 118 && trimmed[1] == 49 && trimmed[2] == 61 {
            let value = vstd::slice::slice_to_vec(
                vstd::slice::slice_subrange(trimmed.as_slice(), 3, trimmed.len()),
            );
            proof {
                assert(trimmed@.subrange(3, trimmed@.len() as int) =~= trim_ws(field@).skip(3));
                assert(signatures_of_fields(processed.push(field@)) =~= signatures_of_fields(
                    processed,
                ) + seq![trim_ws(field@).skip(3)]);
            }
            sigs.push(value);
        } else {
            proof {
                assert(signatures_of_fields(processed.push(field@)) =~= signatures_of_fields(
                    processed,
                ));
            }
        }
        proof {
            processed = processed.push(field@);
        }
        if j == h.len() {
            proof {
                assert(header_fields(h@) =~= processed);
            }
            break;
        }
        p = j + 1;
    }
    (ts, sigs)
}

// --- The acceptance decision ---

/// The replay window: `now` may differ from the signed timestamp by at most
/// 300 seconds in either direction.
pub open spec fn within_window(now: int, ts: int) -> bool {
    -300 <= now - ts <= 300
}

/// The byte string that is actually signed: the timestamp bytes, a dot, and
/// the raw payload exactly as received.
pub open spec fn signed_message(t: Seq<u8>, payload: Seq<u8>) -> Seq<u8> {
    t + seq![46u8] + payload
}

/// The signature the provider computes for `payload` at timestamp bytes `t`
/// under `secret`: the lowercase hex of the HMAC-SHA256 tag of the signed
/// message.
pub open spec fn expected_signature(secret: Seq<u8>, t: Seq<u8>, payload: Seq<u8>) -> Seq<u8> {
    hex_lower(hmac_sha256_of(secret, signed_message(t, payload)))
}

/// Whether a header is structurally malformed: no `t=` field, no `v1=`
/// field, or a timestamp that does not read as a 64-bit integer. Exactly
/// these cases are client errors rather than a false verdict.
pub open spec fn header_malformed(h: Seq<u8>) -> bool {
    ||| header_timestamp(h) is None
    ||| header_signatures(h).len() == 0
    ||| parse_i64_spec(header_timestamp(h).unwrap()) is None
}

/// Whether a well-formed signed envelope is accepted: the timestamp lies
/// within the replay window of `now`, and at least one `v1=` candidate
/// equals the signature expected under `secret`.
pub open spec fn accepts(payload: Seq<u8>, header: Seq<u8>, secret: Seq<u8>, now: int) -> bool {
    &&& !header_malformed(header)
    &&& within_window(now, parse_i64_spec(header_timestamp(header).unwrap()).unwrap())
    &&& exists|i: int|
        0 <= i < header_signatures(header).len() && header_signatures(header)[i]
            == expected_signature(secret, header_timestamp(header).unwrap(), payload)
}

fn append_bytes(dst: &mut Vec<u8>, src: &[u8])
    ensures
        final(dst)@ == old(dst)@ + src@,
{
    let mut tail = vstd::slice::slice_to_vec(src);
    dst.append(&mut tail);
}

/// Decide whether a signed envelope genuinely originated from the provider.
///
/// A structurally malformed header is a `BadRequest`; forgery and staleness
/// are the `Ok(false)` verdict, so that the caller can tell the two apart.
/// The decision is exactly `accepts`: the header's timestamp must lie within
/// the replay window of `now`, and some `v1=` candidate must equal the
/// HMAC-SHA256 hex signature of `<timestamp bytes>.<payload>` under `secret`.
pub fn verify_webhook_signature(payload: &[u8], sig_header: &[u8], secret: &[u8], now: i64) -> (r:
    Result<bool, ApiError>)
    ensures
        r is Err <==> header_malformed(sig_header@),
        r is Ok ==> r.unwrap() == accepts(payload@, sig_header@, secret@, now as int),
        header_timestamp(sig_header@) is None ==> (r matches Err(ApiError::BadRequest(m)) && m@
            == ("Missing timestamp")@),
        header_timestamp(sig_header@) is Some && header_signatures(sig_header@).len() == 0 ==> (
        r matches Err(ApiError::BadRequest(m)) && m@ == ("Missing signature")@),
        header_timestamp(sig_header@) is Some && header_signatures(sig_header@).len() > 0
            && parse_i64_spec(header_timestamp(sig_header@).unwrap()) is None ==> (r matches Err(
        ApiError::BadRequest(m)) && m@ == ("Invalid timestamp")@),
{
    let parsed = parse_signature_header(sig_header);
    let sigs = parsed.1;
    let ts_bytes = match parsed.0 {
        Some(t) => t,
        None => {
            return Err(ApiError::BadRequest(String::from_str("Missing timestamp")));
        },
    };
    if sigs.len() == 0 {
        return Err(ApiError::BadRequest(String::from_str("Missing signature")));
    }
    let mut message: Vec<u8> = Vec::new();
    append_bytes(&mut message, ts_bytes.as_slice());
    message.push(46);
    append_bytes(&mut message, payload);
    proof {
        assert(message@ =~= signed_message(ts_bytes@, payload@));
    }
    let expected = hmac_sha256_hex(secret, message.as_slice());
    let ts_val = match parse_i64(ts_bytes.as_slice()) {
        Some(v) => v,
        None => {
            return Err(ApiError::BadRequest(String::from_str("Invalid timestamp")));
        },
    };
    let delta: i128 = (now as i128) - (ts_val as i128);
    if delta > 300 || delta < -300 {
        return Ok(false);
    }
    let mut found = false;
    let mut i: usize = 0;
    while i < sigs.len()
        invariant
            i <= sigs@.len(),
            expected@ == expected_signature(secret@, ts_bytes@, payload@),
            sigs@.len() == header_signatures(sig_header@).len(),
            forall|k: int| 0 <= k < sigs@.len() ==> sigs@[k]@ == header_signatures(sig_header@)[k],
            found <==> exists|k: int|
                0 <= k < i && header_signatures(sig_header@)[k] == expected_signature(
                    secret@,
                    ts_bytes@,
                    payload@,
                ),
        decreases sigs@.len() - i,
    {
        let matched = timing_safe_eq(expected.as_slice(), sigs[i].as_slice());
        if matched {
            found = true;
        }
        proof {
            let hs = header_signatures(sig_header@);
            let exp = expected_signature(secret@, ts_bytes@, payload@);
            assert(sigs@[i as int]@ == hs[i as int]);
            if matched {
                assert(0 <= (i as int) && (i as int) < i + 1 && hs[i as int] == exp);
            } else if found {
                let k = choose|k: int| 0 <= k < i && hs[k] == exp;
                assert(0 <= k < i + 1 && hs[k] == exp);
            } else {
                assert forall|k: int| 0 <= k < i + 1 implies hs[k] != exp by {
                    if k < i && hs[k] == exp {
                        assert(exists|k2: int| 0 <= k2 < i && hs[k2] == exp);
                    }
                }
            }
        }
        i = i + 1;
    }
    Ok(found)
}

// --- Signing, and the laws that relate it to verification ---

/// The decimal digit bytes of `n >= 0`, most significant first.
pub open spec fn dec_digits(n: int) -> Seq<u8>
    recommends
        n >= 0,
    decreases n,
{
    if n < 10 {
        seq![(48 + n) as u8]
    } else {
        dec_digits(n / 10) + seq![(48 + n % 10) as u8]
    }
}

/// A well-formed signature header carrying exactly one timestamp and one
/// signature candidate: `t=<t>,v1=<sig>`.
pub open spec fn signed_header(t: Seq<u8>, sig: Seq<u8>) -> Seq<u8> {
    seq![116u8, 61u8] + t + seq![44u8, 118u8, 49u8, 61u8] + sig
}

fn format_i64(n: i64) -> (r: Vec<u8>)
    requires
        n >= 0,
    ensures
        r@ == dec_digits(n as int),
    decreases n,
{
    if n < 10 {
        let mut r: Vec<u8> = Vec::new();
        r.push(48 + (n as u8));
        proof {
            assert(r@ =~= dec_digits(n as int));
        }
        r
    } else {
        let mut r = format_i64(n / 10);
        r.push(48 + ((n % 10) as u8));
        proof {
            assert(r@ =~= dec_digits(n as int));
        }
        r
    }
}

/// Produce the signature header the provider would send for `payload` at
/// `timestamp` under `secret`: `t=<timestamp>,v1=<hmac hex>`.
pub fn sign_payload(payload: &[u8], secret: &[u8], timestamp: i64) -> (h: Vec<u8>)
    requires
        0 <= timestamp,
    ensures
        h@ == signed_header(
            dec_digits(timestamp as int),
            expected_signature(secret@, dec_digits(timestamp as int), payload@),
        ),
{
    let ts = format_i64(timestamp);
    let mut message: Vec<u8> = Vec::new();
    append_bytes(&mut message, ts.as_slice());
    message.push(46);
    append_bytes(&mut message, payload);
    proof {
        assert(message@ =~= signed_message(ts@, payload@));
    }
    let sig = hmac_sha256_hex(secret, message.as_slice());
    let mut h: Vec<u8> = Vec::new();
    h.push(116);
    h.push(61);
    append_bytes(&mut h, ts.as_slice());
    h.push(44);
    h.push(118);
    h.push(49);
    h.push(61);
    append_bytes(&mut h, sig.as_slice());
    proof {
        assert(h@ =~= signed_header(ts@, sig@));
    }
    h
}

/// The digits of a non-negative number are decimal digit bytes, and there is
/// at least one of them.
pub proof fn lemma_dec_digits_props(n: int)
    requires
        n >= 0,
    ensures
        dec_digits(n).len() >= 1,
        forall|i: int| 0 <= i < dec_digits(n).len() ==> is_digit(#[trigger] dec_digits(n)[i]),
    decreases n,
{
    if n < 10 {
    } else {
        lemma_dec_digits_props(n / 10);
        assert(0 <= n % 10 < 10);
    }
}

proof fn lemma_parse_digits_append(a: Seq<u8>, b: Seq<u8>, acc: int)
    ensures
        parse_i64_digits(a + b, acc) == (match parse_i64_digits(a, acc) {
            Some(m) => parse_i64_digits(b, m),
            None => None,
        }),
    decreases a.len(),
{
    if a.len() == 0 {
        assert(a + b =~= b);
    } else {
        assert((a + b)[0] == a[0]);
        assert((a + b).len() > 0);
        if !is_digit(a[0]) {
        } else {
            let acc2 = acc * 10 - (a[0] - 48);
            if acc2 < i64::MIN {
            } else {
                assert((a + b).drop_first() =~= a.drop_first() + b);
                lemma_parse_digits_append(a.drop_first(), b, acc2);
            }
        }
    }
}

proof fn lemma_parse_dec_digits(n: int)
    requires
        0 <= n <= i64::MAX,
    ensures
        parse_i64_digits(dec_digits(n), 0) == Some(-n),
    decreases n,
{
    if n < 10 {
        let d = dec_digits(n);
        assert(d[0] == (48 + n) as u8);
        assert(d[0] as int == 48 + n);
        assert(is_digit(d[0]));
        assert(0 * 10 - (d[0] - 48) == -n);
        assert(d.drop_first() =~= Seq::<u8>::empty());
        assert(parse_i64_digits(Seq::<u8>::empty(), -n) == Some(-n));
    } else {
        lemma_parse_dec_digits(n / 10);
        let q = n / 10;
        let d = n % 10;
        let a = dec_digits(q);
        let b = seq![(48 + d) as u8];
        lemma_parse_digits_append(a, b, 0);
        assert(0 <= d < 10);
        assert(b[0] == (48 + d) as u8);
        assert(b[0] as int == 48 + d);
        assert(is_digit(b[0]));
        vstd::arithmetic::div_mod::lemma_fundamental_div_mod(n, 10);
        assert(q * 10 + d == n);
        assert((-q) * 10 == -(q * 10)) by (nonlinear_arith);
        let acc2 = (-q) * 10 - (b[0] - 48);
        assert(acc2 == -n);
        assert(acc2 >= i64::MIN);
        assert(b.drop_first() =~= Seq::<u8>::empty());
        assert(parse_i64_digits(Seq::<u8>::empty(), acc2) == Some(acc2));
        assert(parse_i64_digits(b, -q) == Some(-n));
    }
}

/// The decimal digits of a non-negative 64-bit value parse back to it.
pub proof fn lemma_parse_of_dec_digits(n: int)
    requires
        0 <= n <= i64::MAX,
    ensures
        parse_i64_spec(dec_digits(n)) == Some(n),
{
    lemma_dec_digits_props(n);
    lemma_parse_dec_digits(n);
    assert(is_digit(dec_digits(n)[0]));
    assert(dec_digits(n)[0] != 45 && dec_digits(n)[0] != 43);
}

/// How a one-timestamp, one-signature header parses: the timestamp bytes and
/// the single candidate come back exactly, provided the timestamp is made of
/// digits and the signature of lowercase hex bytes.
pub proof fn lemma_signed_header_parses(t: Seq<u8>, sig: Seq<u8>)
    requires
        t.len() > 0,
        forall|i: int| 0 <= i < t.len() ==> is_digit(#[trigger] t[i]),
        forall|i: int| 0 <= i < sig.len() ==> crate::crypto::is_lower_hex_byte(#[trigger] sig[i]),
    ensures
        header_timestamp(signed_header(t, sig)) == Some(t),
        header_signatures(signed_header(t, sig)) == seq![sig],
{
    let h = signed_header(t, sig);
    let f1 = seq![116u8, 61u8] + t;
    let f2 = seq![118u8, 49u8, 61u8] + sig;
    let ci = 2 + t.len() as int;
    assert forall|k: int| 0 <= k < ci implies h[k] != 44 by {
        if k >= 2 {
            assert(h[k] == t[k - 2]);
            assert(is_digit(t[k - 2]));
        }
    }
    assert(h[ci] == 44);
    lemma_comma_index_at(h, ci);
    assert(h.take(ci) =~= f1);
    assert(h.skip(ci + 1) =~= f2);
    assert forall|k: int| 0 <= k < f2.len() implies f2[k] != 44 by {
        if k >= 3 {
            assert(f2[k] == sig[k - 3]);
        }
    }
    lemma_comma_index_at(f2, f2.len() as int);
    assert(header_fields(f2) == seq![f2]);
    let fs = seq![f1, f2];
    assert(header_fields(h) =~= fs);

    // both fields are their own trim: they start and end with non-whitespace
    assert(!is_ws(f1[0]) && !is_ws(f1[f1.len() - 1]));
    lemma_trim_front_skip(f1, 0);
    assert(f1.skip(0) =~= f1);
    lemma_trim_back_take(f1, f1.len() as int);
    assert(f1.take(f1.len() as int) =~= f1);
    assert(trim_ws(f1) == f1);
    assert(!is_ws(f2[0]) && !is_ws(f2[f2.len() - 1]));
    lemma_trim_front_skip(f2, 0);
    assert(f2.skip(0) =~= f2);
    lemma_trim_back_take(f2, f2.len() as int);
    assert(f2.take(f2.len() as int) =~= f2);
    assert(trim_ws(f2) == f2);

    assert(timestamp_of_field(f2) is None);
    assert(f1.skip(2) =~= t);
    assert(timestamp_of_field(f1) == Some(t));
    assert(fs.last() == f2);
    assert(fs.drop_last() =~= seq![f1]);
    assert(seq![f1].last() == f1);
    assert(seq![f1].drop_last() =~= Seq::<Seq<u8>>::empty());
    assert(timestamp_of_fields(seq![f1]) == Some(t));
    assert(timestamp_of_fields(fs) == Some(t));

    assert(signature_of_field(f1) is None);
    assert(f2.skip(3) =~= sig);
    assert(signature_of_field(f2) == Some(sig));
    assert(signatures_of_fields(Seq::<Seq<u8>>::empty()) =~= Seq::<Seq<u8>>::empty());
    assert(signatures_of_fields(seq![f1]) =~= Seq::<Seq<u8>>::empty());
    assert(signatures_of_fields(fs) =~= seq![sig]);
}

/// Law: a payload signed under a secret at timestamp `t` is accepted under
/// that same secret exactly when the verifier's clock lies within the replay
/// window around `t` — and once the clock moves past the window the same,
/// otherwise correct, signature is rejected.
pub proof fn lemma_sign_then_verify(payload: Seq<u8>, secret: Seq<u8>, t: int, now: int)
    requires
        0 <= t <= i64::MAX,
    ensures
        ({
            let header = signed_header(
                dec_digits(t),
                expected_signature(secret, dec_digits(t), payload),
            );
            &&& !header_malformed(header)
            &&& (accepts(payload, header, secret, now) <==> within_window(now, t))
        }),
{
    let ts = dec_digits(t);
    let sig = expected_signature(secret, ts, payload);
    let header = signed_header(ts, sig);
    lemma_dec_digits_props(t);
    crate::crypto::lemma_hex_lower_props(hmac_sha256_of(secret, signed_message(ts, payload)));
    lemma_signed_header_parses(ts, sig);
    lemma_parse_of_dec_digits(t);
    assert(header_signatures(header)[0] == sig);
    if within_window(now, t) {
        assert(accepts(payload, header, secret, now));
    }
}

/// Law: a payload signed under one secret is rejected under a different
/// secret whenever the two secrets' expected signatures differ. (The MAC is
/// opaque here, so the vanishing chance of a collision between two secrets
/// cannot be ruled out by this model; this law excludes exactly that case.)
pub proof fn lemma_wrong_secret_rejected(
    payload: Seq<u8>,
    signing_secret: Seq<u8>,
    verifying_secret: Seq<u8>,
    t: int,
    now: int,
)
    requires
        0 <= t <= i64::MAX,
        expected_signature(verifying_secret, dec_digits(t), payload) != expected_signature(
            signing_secret,
            dec_digits(t),
            payload,
        ),
    ensures
        !accepts(
            payload,
            signed_header(
                dec_digits(t),
                expected_signature(signing_secret, dec_digits(t), payload),
            ),
            verifying_secret,
            now,
        ),
{
    let ts = dec_digits(t);
    let sig = expected_signature(signing_secret, ts, payload);
    lemma_dec_digits_props(t);
    crate::crypto::lemma_hex_lower_props(
        hmac_sha256_of(signing_secret, signed_message(ts, payload)),
    );
    lemma_signed_header_parses(ts, sig);
    assert(header_signatures(signed_header(ts, sig)).len() == 1);
    assert(header_signatures(signed_header(ts, sig))[0] == sig);
}

/// Law: one matching candidate suffices. Whatever other `v1=` entries a
/// well-formed, fresh header carries, the envelope is accepted as soon as
/// any one of them equals the expected signature.
pub proof fn lemma_any_candidate_suffices(
    payload: Seq<u8>,
    header: Seq<u8>,
    secret: Seq<u8>,
    now: int,
    i: int,
)
    requires
        !header_malformed(header),
        within_window(now, parse_i64_spec(header_timestamp(header).unwrap()).unwrap()),
        0 <= i < header_signatures(header).len(),
        header_signatures(header)[i] == expected_signature(
            secret,
            header_timestamp(header).unwrap(),
            payload,
        ),
    ensures
        accepts(payload, header, secret, now),
{
}

} // verus!
