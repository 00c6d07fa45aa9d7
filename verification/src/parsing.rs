//! The line classifier and parser: one newline-terminated line of bytes in,
//! exactly one typed [`Response`](crate::device::Response) out.
//!
//! Every function here is total: malformed input of any shape falls back to
//! `Response::Error`, never to a panic. Lines are handled as raw bytes; a
//! byte outside the ASCII range never matches a command prefix, a decimal or
//! hex digit, or the base64 alphabet, so such lines classify as `Error`.

use vstd::prelude::*;

use base64::Engine;

use crate::device::{MacAddr6, SensorInfo, Datagram, DecodeError, AcknowledgeType, Response, spec_decode_sensor_info, spec_decode_datagram, decode_sensor_info, decode_datagram};

verus! {

// ---------------------------------------------------------------------------
// ASCII whitespace and trimming
// ---------------------------------------------------------------------------
/// The ASCII whitespace bytes (the whitespace a protocol line can carry:
/// tab, newline, vertical tab, form feed, carriage return, space).
pub open spec fn is_ascii_ws(b: u8) -> bool {
    b == 9 || b == 10 || b == 11 || b == 12 || b == 13 || b == 32
}

/// `s` with leading ASCII whitespace removed.
pub open spec fn trim_start_spec(s: Seq<u8>) -> Seq<u8>
    decreases s.len(),
{
    if s.len() > 0 && is_ascii_ws(s[0]) {
        trim_start_spec(s.skip(1))
    } else {
        s
    }
}

/// `s` with trailing ASCII whitespace removed.
pub open spec fn trim_end_spec(s: Seq<u8>) -> Seq<u8>
    decreases s.len(),
{
    if s.len() > 0 && is_ascii_ws(s[s.len() - 1]) {
        trim_end_spec(s.take(s.len() - 1))
    } else {
        s
    }
}

/// `s` with whitespace removed from both ends.
pub open spec fn trim_spec(s: Seq<u8>) -> Seq<u8> {
    trim_end_spec(trim_start_spec(s))
}

fn is_ws_byte(b: u8) -> (r: bool)
    ensures
        r == is_ascii_ws(b),
{
    b == 9 || b == 10 || b == 11 || b == 12 || b == 13 || b == 32
}

proof fn lemma_trim_start_step(s: Seq<u8>)
    requires
        s.len() > 0,
        is_ascii_ws(s[0]),
    ensures
        trim_start_spec(s) == trim_start_spec(s.skip(1)),
{
}

proof fn lemma_trim_end_step(s: Seq<u8>)
    requires
        s.len() > 0,
        is_ascii_ws(s[s.len() - 1]),
    ensures
        trim_end_spec(s) == trim_end_spec(s.take(s.len() - 1)),
{
}

/// Strip leading ASCII whitespace from a byte slice.
pub fn trim_start_bytes<'a>(s: &'a [u8]) -> (r: &'a [u8])
    ensures
        r@ == trim_start_spec(s@),
{
    let mut i: usize = 0;
    proof {
        assert(s@.skip(0) =~= s@);
    }
    while i < s.len() && is_ws_byte(s[i])
        invariant
            0 <= i <= s@.len(),
            trim_start_spec(s@) == trim_start_spec(s@.skip(i as int)),
        decreases s@.len() - i,
    {
        proof {
            lemma_trim_start_step(s@.skip(i as int));
            assert(s@.skip(i as int).skip(1) =~= s@.skip(i as int + 1));
        }
        i += 1;
    }
    proof {
        assert(trim_start_spec(s@.skip(i as int)) == s@.skip(i as int));
    }
    vstd::slice::slice_subrange(s, i, s.len())
}

/// Strip ASCII whitespace from both ends of a byte slice.
pub fn trim_bytes<'a>(s: &'a [u8]) -> (r: &'a [u8])
    ensures
        r@ == trim_spec(s@),
{
    let mut i: usize = 0;
    proof {
        assert(s@.skip(0) =~= s@);
    }
    while i < s.len() && is_ws_byte(s[i])
        invariant
            0 <= i <= s@.len(),
            trim_start_spec(s@) == trim_start_spec(s@.skip(i as int)),
        decreases s@.len() - i,
    {
        proof {
            lemma_trim_start_step(s@.skip(i as int));
            assert(s@.skip(i as int).skip(1) =~= s@.skip(i as int + 1));
        }
        i += 1;
    }
    proof {
        assert(trim_start_spec(s@) == s@.skip(i as int));
    }
    let mut j: usize = s.len();
    while j > i && is_ws_byte(s[j - 1])
        invariant
            i <= j <= s@.len(),
            trim_start_spec(s@) == s@.skip(i as int),
            trim_end_spec(s@.subrange(i as int, s@.len() as int)) == trim_end_spec(
                s@.subrange(i as int, j as int),
            ),
        decreases j,
    {
        proof {
            lemma_trim_end_step(s@.subrange(i as int, j as int));
            assert(s@.subrange(i as int, j as int).take(j - i - 1) =~= s@.subrange(
                i as int,
                j as int - 1,
            ));
        }
        j -= 1;
    }
    proof {
        assert(s@.skip(i as int) =~= s@.subrange(i as int, s@.len() as int));
        assert(trim_end_spec(s@.subrange(i as int, j as int)) == s@.subrange(i as int, j as int));
    }
    vstd::slice::slice_subrange(s, i, j)
}

// ---------------------------------------------------------------------------
// Splitting on single spaces, like `str::split(' ')`
// ---------------------------------------------------------------------------
/// The fields of `s` split on every single space byte. Splitting the empty
/// sequence yields one empty field, and every space contributes a boundary,
/// so consecutive spaces yield empty fields.
pub open spec fn split_sp(s: Seq<u8>) -> Seq<Seq<u8>>
    decreases s.len(),
{
    if s.len() == 0 {
        seq![Seq::<u8>::empty()]
    } else if s[0] == 32 {
        seq![Seq::<u8>::empty()] + split_sp(s.skip(1))
    } else {
        let r = split_sp(s.skip(1));
        seq![seq![s[0]] + r[0]] + r.skip(1)
    }
}

/// The first field of `s`: everything before the first space.
pub open spec fn leading_token(s: Seq<u8>) -> Seq<u8> {
    split_sp(s)[0]
}

pub proof fn lemma_split_sp_len(s: Seq<u8>)
    ensures
        split_sp(s).len() >= 1,
    decreases s.len(),
{
    if s.len() == 0 {
    } else if s[0] == 32 {
        lemma_split_sp_len(s.skip(1));
    } else {
        lemma_split_sp_len(s.skip(1));
    }
}

/// A sequence without spaces is a single field.
pub proof fn lemma_split_sp_no_space(s: Seq<u8>)
    requires
        forall|k: int| 0 <= k < s.len() ==> s[k] != 32,
    ensures
        split_sp(s) =~~= seq![s],
    decreases s.len(),
{
    if s.len() == 0 {
        assert(split_sp(s) =~~= seq![s]);
    } else {
        lemma_split_sp_no_space(s.skip(1));
        lemma_split_sp_len(s.skip(1));
        assert(seq![s[0]] + split_sp(s.skip(1))[0] =~= s);
    }
}

/// Splitting at the first space: a space-free prefix becomes the first
/// field, and the rest splits on its own.
pub proof fn lemma_split_sp_concat(a: Seq<u8>, b: Seq<u8>)
    requires
        forall|k: int| 0 <= k < a.len() ==> a[k] != 32,
    ensures
        split_sp(a + seq![32u8] + b) =~~= seq![a] + split_sp(b),
    decreases a.len(),
{
    let s = a + seq![32u8] + b;
    if a.len() == 0 {
        assert(s[0] == 32);
        assert(s.skip(1) =~= b);
        assert(split_sp(s) =~~= seq![Seq::<u8>::empty()] + split_sp(b));
        assert(a =~= Seq::<u8>::empty());
    } else {
        assert(s[0] == a[0]);
        assert(s[0] != 32);
        assert(s.skip(1) =~= a.skip(1) + seq![32u8] + b);
        lemma_split_sp_concat(a.skip(1), b);
        let r = split_sp(s.skip(1));
        lemma_split_sp_len(b);
        assert(r =~~= seq![a.skip(1)] + split_sp(b));
        assert(seq![s[0]] + r[0] =~= a);
        assert(r.skip(1) =~~= split_sp(b));
    }
}

/// Split a byte slice on every space, like the line parser's tokenizer.
pub fn split_spaces<'a>(s: &'a [u8]) -> (r: Vec<&'a [u8]>)
    ensures
        r.deep_view() == split_sp(s@),
{
    let ghost len = s@.len() as int;
    let mut toks: Vec<&'a [u8]> = Vec::new();
    let mut start: usize = 0;
    let mut i: usize = 0;
    proof {
        assert(s@.subrange(0, len) =~= s@);
        assert(toks.deep_view() =~~= Seq::<Seq<u8>>::empty());
    }
    while i < s.len()
        invariant
            0 <= start <= i <= s@.len(),
            split_sp(s@) =~~= toks.deep_view() + split_sp(s@.subrange(start as int, len)),
            forall|k: int| start <= k < i ==> s@[k] != 32,
            len == s@.len(),
        decreases s@.len() - i,
    {
        if s[i] == 32 {
            let tok = vstd::slice::slice_subrange(s, start, i);
            proof {
                assert(s@.subrange(start as int, len) =~= s@.subrange(start as int, i as int)
                    + seq![32u8] + s@.subrange(i as int + 1, len));
                lemma_split_sp_concat(
                    s@.subrange(start as int, i as int),
                    s@.subrange(i as int + 1, len),
                );
            }
            let ghost old_toks = toks.deep_view();
            toks.push(tok);
            proof {
                assert(toks.deep_view() =~~= old_toks.push(tok@));
            }
            start = i + 1;
        }
        i += 1;
    }
    let tok = vstd::slice::slice_subrange(s, start, s.len());
    proof {
        lemma_split_sp_no_space(s@.subrange(start as int, len));
    }
    let ghost old_toks = toks.deep_view();
    toks.push(tok);
    proof {
        assert(toks.deep_view() =~~= old_toks.push(tok@));
        assert(toks.deep_view() =~~= split_sp(s@));
    }
    toks
}

// ---------------------------------------------------------------------------
// Decimal numbers, like `str::parse::<u8>` / `str::parse::<u64>`
// ---------------------------------------------------------------------------
pub open spec fn is_digit(b: u8) -> bool {
    48 <= b <= 57
}

pub open spec fn all_digits(s: Seq<u8>) -> bool {
    forall|k: int| 0 <= k < s.len() ==> is_digit(s[k])
}

/// The value of a digit string, most significant digit first.
pub open spec fn dec_val(s: Seq<u8>) -> nat
    recommends
        all_digits(s),
    decreases s.len(),
{
    if s.len() == 0 {
        0
    } else {
        (dec_val(s.take(s.len() - 1)) * 10 + s[s.len() - 1] - 48) as nat
    }
}

/// What `str::parse` yields for an unsigned integer: an optional leading
/// `+`, then one or more decimal digits, rejected on overflow.
pub open spec fn parse_u8_spec(s: Seq<u8>) -> Option<u8> {
    let t = if s.len() > 0 && s[0] == 43 {
        s.skip(1)
    } else {
        s
    };
    if t.len() > 0 && all_digits(t) && dec_val(t) <= 255 {
        Some(dec_val(t) as u8)
    } else {
        None
    }
}

pub open spec fn parse_u64_spec(s: Seq<u8>) -> Option<u64> {
    let t = if s.len() > 0 && s[0] == 43 {
        s.skip(1)
    } else {
        s
    };
    if t.len() > 0 && all_digits(t) && dec_val(t) <= u64::MAX {
        Some(dec_val(t) as u64)
    } else {
        None
    }
}

proof fn lemma_dec_val_snoc(s: Seq<u8>, i: int)
    requires
        0 <= i < s.len(),
        is_digit(s[i]),
    ensures
        dec_val(s.take(i + 1)) == dec_val(s.take(i)) * 10 + s[i] - 48,
{
    assert(s.take(i + 1).take(i) =~= s.take(i));
    assert(s.take(i + 1)[i] == s[i]);
}

fn digits_to_acc(t: &[u8], bound: u64) -> (r: Option<u64>)
    ensures
        match r {
            Some(v) => t@.len() > 0 && all_digits(t@) && dec_val(t@) <= bound && v == dec_val(t@),
            None => !(t@.len() > 0 && all_digits(t@) && dec_val(t@) <= bound),
        },
{
    if t.len() == 0 {
        return None;
    }
    let mut acc: u128 = 0;
    let mut over = false;
    let mut i: usize = 0;
    while i < t.len()
        invariant
            0 <= i <= t@.len(),
            forall|k: int| 0 <= k < i ==> is_digit(t@[k]),
            !over ==> acc == dec_val(t@.take(i as int)) && acc <= bound,
            over ==> dec_val(t@.take(i as int)) > bound,
            bound <= u64::MAX,
        decreases t@.len() - i,
    {
        let b = t[i];
        if b < 48 || b > 57 {
            assert(!all_digits(t@));
            return None;
        }
        let d = (b - 48) as u128;
        proof {
            lemma_dec_val_snoc(t@, i as int);
        }
        if !over {
            let next = acc * 10 + d;
            if next > bound as u128 {
                over = true;
            } else {
                acc = next;
            }
        }
        i += 1;
    }
    proof {
        assert(t@.take(t@.len() as int) =~= t@);
    }
    if over {
        None
    } else {
        Some(acc as u64)
    }
}

/// Parse a decimal `u8` from bytes, with `str::parse`'s grammar.
pub fn parse_u8_bytes(s: &[u8]) -> (r: Option<u8>)
    ensures
        r == parse_u8_spec(s@),
{
    let t: &[u8] = if s.len() > 0 && s[0] == 43 {
        vstd::slice::slice_subrange(s, 1, s.len())
    } else {
        s
    };
    proof {
        if s@.len() > 0 && s@[0] == 43 {
            assert(t@ =~= s@.skip(1));
        }
    }
    match digits_to_acc(t, 255) {
        Some(v) => Some(v as u8),
        None => None,
    }
}

/// Parse a decimal `u64` from bytes, with `str::parse`'s grammar.
pub fn parse_u64_bytes(s: &[u8]) -> (r: Option<u64>)
    ensures
        r == parse_u64_spec(s@),
{
    let t: &[u8] = if s.len() > 0 && s[0] == 43 {
        vstd::slice::slice_subrange(s, 1, s.len())
    } else {
        s
    };
    proof {
        if s@.len() > 0 && s@[0] == 43 {
            assert(t@ =~= s@.skip(1));
        }
    }
    digits_to_acc(t, u64::MAX)
}

// ---------------------------------------------------------------------------
// Hex bytes, as the `_dev` reply carries them
// ---------------------------------------------------------------------------
pub open spec fn is_hex_digit(b: u8) -> bool {
    (48 <= b <= 57) || (97 <= b <= 102) || (65 <= b <= 70)
}

pub open spec fn hex_digit_val(b: u8) -> u8
    recommends
        is_hex_digit(b),
{
    if 48 <= b <= 57 {
        (b - 48) as u8
    } else if 97 <= b <= 102 {
        (b - 87) as u8
    } else {
        (b - 55) as u8
    }
}

/// One or two hex digits make a byte; the device sometimes emits a single
/// digit where a leading zero is meant.
pub open spec fn parse_hex_byte_spec(s: Seq<u8>) -> Option<u8> {
    if s.len() == 1 && is_hex_digit(s[0]) {
        Some(hex_digit_val(s[0]))
    } else if s.len() == 2 && is_hex_digit(s[0]) && is_hex_digit(s[1]) {
        Some((16 * hex_digit_val(s[0]) + hex_digit_val(s[1])) as u8)
    } else {
        None
    }
}

fn hex_digit(b: u8) -> (r: Option<u8>)
    ensures
        match r {
            Some(v) => is_hex_digit(b) && v == hex_digit_val(b),
            None => !is_hex_digit(b),
        },
{
    if 48 <= b && b <= 57 {
        Some(b - 48)
    } else if 97 <= b && b <= 102 {
        Some(b - 87)
    } else if 65 <= b && b <= 70 {
        Some(b - 55)
    } else {
        None
    }
}

/// Parse a hardware-address byte from one or two hex digits.
pub fn parse_hex_byte(s: &[u8]) -> (r: Option<u8>)
    ensures
        r == parse_hex_byte_spec(s@),
{
    if s.len() == 1 {
        hex_digit(s[0])
    } else if s.len() == 2 {
        match (hex_digit(s[0]), hex_digit(s[1])) {
            (Some(h), Some(l)) => Some(16 * h + l),
            _ => None,
        }
    } else {
        None
    }
}


// ---------------------------------------------------------------------------
// Command-echo prefixes and acknowledge texts
// ---------------------------------------------------------------------------
pub open spec fn si_prefix() -> Seq<u8> {
    seq![95, 115, 105]
}

pub open spec fn dev_prefix() -> Seq<u8> {
    seq![95, 100, 101, 118]
}

pub open spec fn ch_prefix() -> Seq<u8> {
    seq![95, 99, 104]
}

pub open spec fn auto_off_prefix() -> Seq<u8> {
    seq![95, 97, 117, 116, 111, 95, 111, 102, 102]
}

pub open spec fn ok_prefix() -> Seq<u8> {
    seq![95, 111, 107]
}

pub open spec fn datamode_prefix() -> Seq<u8> {
    seq![95, 100, 97, 116, 97, 109, 111, 100, 101]
}

pub open spec fn esp_restart_text() -> Seq<u8> {
    seq![69, 83, 80, 95, 82, 69, 83, 84, 65, 82, 84]
}

pub open spec fn wifi_on_text() -> Seq<u8> {
    seq![87, 73, 70, 73, 95, 79, 78]
}

pub open spec fn quit_config_text() -> Seq<u8> {
    seq![81, 85, 73, 84, 95, 67, 79, 78, 70, 73, 71]
}

/// Byte-for-byte equality of two slices.
fn bytes_eq(a: &[u8], b: &[u8]) -> (r: bool)
    ensures
        r == (a@ == b@),
{
    if a.len() != b.len() {
        return false;
    }
    let mut i: usize = 0;
    while i < a.len()
        invariant
            0 <= i <= a@.len(),
            a@.len() == b@.len(),
            forall|k: int| 0 <= k < i ==> a@[k] == b@[k],
        decreases a@.len() - i,
    {
        if a[i] != b[i] {
            return false;
        }
        i += 1;
    }
    proof {
        assert(a@ =~= b@);
    }
    true
}

// ---------------------------------------------------------------------------
// The base64 payload
// ---------------------------------------------------------------------------
/// What base64's STANDARD engine yields for a given input: `None` exactly
/// when the input is not valid padded standard-alphabet base64. Named
/// rather than spelled out; the decoding is a function of the input bytes
/// alone.
pub uninterp spec fn b64_decoded(s: Seq<u8>) -> Option<Seq<u8>>;

/// Relies on `base64::engine::general_purpose::STANDARD.decode`: the
/// result is a function of the input bytes alone, here given the name
/// `b64_decoded`.
#[verifier::external_body]
fn base64_decode(input: &[u8]) -> (r: Option<Vec<u8>>)
    ensures
        match r {
            Some(v) => b64_decoded(input@) == Some(v@),
            None => b64_decoded(input@) is None,
        },
{
    match base64::engine::general_purpose::STANDARD.decode(input) {
        Ok(v) => Some(v),
        Err(_) => None,
    }
}

// ---------------------------------------------------------------------------
// The sub-parsers, one per command-echo prefix
// ---------------------------------------------------------------------------
/// `_si` remainder: `<id> <base64 of 19 or 23 bytes>`.
pub open spec fn spec_parse_si(s: Seq<u8>) -> Option<(u8, SensorInfo)> {
    let v = split_sp(s);
    if v.len() != 2 {
        None
    } else {
        match parse_u8_spec(v[0]) {
            Some(id) => match b64_decoded(v[1]) {
                Some(b) => if b.len() == 19 || b.len() == 23 {
                    Some((id, spec_decode_sensor_info(b)))
                } else {
                    None
                },
                None => None,
            },
            None => None,
        }
    }
}

/// Parse an `_si` remainder into a sensor id and its configuration.
pub fn parse_si(line: &[u8]) -> (r: Option<(u8, SensorInfo)>)
    ensures
        r == spec_parse_si(line@),
{
    let toks = split_spaces(line);
    if toks.len() != 2 {
        return None;
    }
    proof {
        assert(toks@[0]@ == toks.deep_view()[0]);
        assert(toks@[1]@ == toks.deep_view()[1]);
    }
    let id = match parse_u8_bytes(toks[0]) {
        Some(id) => id,
        None => {
            return None;
        },
    };
    let bytes = match base64_decode(toks[1]) {
        Some(b) => b,
        None => {
            return None;
        },
    };
    if bytes.len() == 19 || bytes.len() == 23 {
        Some((id, decode_sensor_info(bytes.as_slice())))
    } else {
        None
    }
}

/// `_dev` remainder: `<id>` then six hex bytes, each possibly missing its
/// leading zero.
pub open spec fn spec_parse_dev(s: Seq<u8>) -> Option<(u8, MacAddr6)> {
    let v = split_sp(s);
    if v.len() != 7 {
        None
    } else {
        match parse_u8_spec(v[0]) {
            Some(id) => {
                let h1 = parse_hex_byte_spec(v[1]);
                let h2 = parse_hex_byte_spec(v[2]);
                let h3 = parse_hex_byte_spec(v[3]);
                let h4 = parse_hex_byte_spec(v[4]);
                let h5 = parse_hex_byte_spec(v[5]);
                let h6 = parse_hex_byte_spec(v[6]);
                if h1 is Some && h2 is Some && h3 is Some && h4 is Some && h5 is Some && h6
                    is Some {
                    Some(
                        (
                            id,
                            MacAddr6::spec_new(
                                h1->Some_0,
                                h2->Some_0,
                                h3->Some_0,
                                h4->Some_0,
                                h5->Some_0,
                                h6->Some_0,
                            ),
                        ),
                    )
                } else {
                    None
                }
            },
            None => None,
        }
    }
}

/// Parse a `_dev` remainder into a device id and hardware address.
pub fn parse_dev(line: &[u8]) -> (r: Option<(u8, MacAddr6)>)
    ensures
        r == spec_parse_dev(line@),
{
    let toks = split_spaces(line);
    if toks.len() != 7 {
        return None;
    }
    proof {
        assert(forall|k: int| 0 <= k < 7 ==> toks@[k]@ == toks.deep_view()[k]);
    }
    let id = match parse_u8_bytes(toks[0]) {
        Some(id) => id,
        None => {
            return None;
        },
    };
    match (
        parse_hex_byte(toks[1]),
        parse_hex_byte(toks[2]),
        parse_hex_byte(toks[3]),
        parse_hex_byte(toks[4]),
        parse_hex_byte(toks[5]),
        parse_hex_byte(toks[6]),
    ) {
        (Some(h1), Some(h2), Some(h3), Some(h4), Some(h5), Some(h6)) => Some(
            (id, MacAddr6::new(h1, h2, h3, h4, h5, h6)),
        ),
        _ => None,
    }
}

/// `_ch` remainder: a single decimal byte.
pub fn parse_ch(line: &[u8]) -> (r: Option<u8>)
    ensures
        r == parse_u8_spec(line@),
{
    parse_u8_bytes(line)
}

/// `_auto_off` remainder: `<decimal byte> <decimal u64>`.
pub open spec fn spec_parse_auto_off(s: Seq<u8>) -> Option<(u8, u64)> {
    let v = split_sp(s);
    if v.len() != 2 {
        None
    } else {
        match (parse_u8_spec(v[0]), parse_u64_spec(v[1])) {
            (Some(enable), Some(duration)) => Some((enable, duration)),
            _ => None,
        }
    }
}

/// Parse an `_auto_off` remainder into the enable flag and the duration in
/// milliseconds.
pub fn parse_auto_off(line: &[u8]) -> (r: Option<(u8, u64)>)
    ensures
        r == spec_parse_auto_off(line@),
{
    let toks = split_spaces(line);
    if toks.len() != 2 {
        return None;
    }
    proof {
        assert(toks@[0]@ == toks.deep_view()[0]);
        assert(toks@[1]@ == toks.deep_view()[1]);
    }
    match (parse_u8_bytes(toks[0]), parse_u64_bytes(toks[1])) {
        (Some(enable), Some(duration)) => Some((enable, duration)),
        _ => None,
    }
}

/// `_ok` remainder: the literal acknowledge text; empty text means Alive.
pub open spec fn spec_parse_ok(s: Seq<u8>) -> Option<AcknowledgeType> {
    if s.len() == 0 {
        Some(AcknowledgeType::Alive)
    } else if s == esp_restart_text() {
        Some(AcknowledgeType::RestartAP)
    } else if s == wifi_on_text() {
        Some(AcknowledgeType::StartWifi)
    } else if s == quit_config_text() {
        Some(AcknowledgeType::QuitConfig)
    } else {
        None
    }
}

/// Parse an `_ok` remainder into the kind of acknowledge.
pub fn parse_ok(line: &[u8]) -> (r: Option<AcknowledgeType>)
    ensures
        r == spec_parse_ok(line@),
{
    let esp: [u8; 11] = [69, 83, 80, 95, 82, 69, 83, 84, 65, 82, 84];
    let wifi: [u8; 7] = [87, 73, 70, 73, 95, 79, 78];
    let quit: [u8; 11] = [81, 85, 73, 84, 95, 67, 79, 78, 70, 73, 71];
    proof {
        assert(esp@ =~= esp_restart_text());
        assert(wifi@ =~= wifi_on_text());
        assert(quit@ =~= quit_config_text());
    }
    if line.len() == 0 {
        Some(AcknowledgeType::Alive)
    } else if bytes_eq(line, esp.as_slice()) {
        Some(AcknowledgeType::RestartAP)
    } else if bytes_eq(line, wifi.as_slice()) {
        Some(AcknowledgeType::StartWifi)
    } else if bytes_eq(line, quit.as_slice()) {
        Some(AcknowledgeType::QuitConfig)
    } else {
        None
    }
}

/// `_datamode` remainder: a single decimal byte.
pub fn parse_datamode(line: &[u8]) -> (r: Option<u8>)
    ensures
        r == parse_u8_spec(line@),
{
    parse_u8_bytes(line)
}

// ---------------------------------------------------------------------------
// The dispatch parser
// ---------------------------------------------------------------------------
pub open spec fn pad1() -> Seq<u8> {
    seq![61]
}

pub open spec fn pad2() -> Seq<u8> {
    seq![61, 61]
}

/// What a bare telemetry line yields once padded: decode the base64, check
/// the decoded byte count, and hand the bytes to the datagram decoder.
pub open spec fn spec_data_response(padded: Seq<u8>, want: int) -> Response {
    match b64_decoded(padded) {
        Some(b) => if b.len() == want {
            match spec_decode_datagram(b) {
                Ok(d) => Response::Data(d),
                Err(e) => Response::Error,
            }
        } else {
            Response::Error
        },
        None => Response::Error,
    }
}

fn data_response(padded: &Vec<u8>, want: usize) -> (r: Response)
    ensures
        r == spec_data_response(padded@, want as int),
{
    match base64_decode(padded.as_slice()) {
        Some(bytes) => {
            if bytes.len() == want {
                match decode_datagram(bytes.as_slice()) {
                    Ok(d) => Response::Data(d),
                    Err(_) => Response::Error,
                }
            } else {
                Response::Error
            }
        },
        None => Response::Error,
    }
}

/// What `parse` yields on one (already trimmed) line. The line's first
/// space-separated field selects a command-echo sub-parser; a line with no
/// recognized prefix is base64 telemetry, classified purely by its length,
/// which selects the padding to restore and the decoded byte count to
/// expect. Total: every failure of any stage is `Response::Error`.
pub open spec fn spec_parse(line: Seq<u8>) -> Response {
    let tok = leading_token(line);
    if tok == si_prefix() {
        match spec_parse_si(trim_start_spec(line.skip(3))) {
            Some((id, info)) => Response::SensorInfo(id, info),
            None => Response::Error,
        }
    } else if tok == dev_prefix() {
        match spec_parse_dev(trim_start_spec(line.skip(4))) {
            Some((id, addr)) => Response::Device(id, addr),
            None => Response::Error,
        }
    } else if tok == ch_prefix() {
        match parse_u8_spec(trim_start_spec(line.skip(3))) {
            Some(ch) => Response::Channel(ch),
            None => Response::Error,
        }
    } else if tok == auto_off_prefix() {
        match spec_parse_auto_off(trim_start_spec(line.skip(9))) {
            Some((enable, duration)) => Response::AutoOff(enable, duration),
            None => Response::Error,
        }
    } else if tok == ok_prefix() {
        match spec_parse_ok(trim_start_spec(line.skip(3))) {
            Some(ack) => Response::Acknowledge(ack),
            None => Response::Error,
        }
    } else if tok == datamode_prefix() {
        match parse_u8_spec(trim_start_spec(line.skip(9))) {
            Some(dm) => Response::Datamode(dm),
            None => Response::Error,
        }
    } else if line.len() == 14 {
        spec_data_response(line + pad2(), 10)
    } else if line.len() == 16 {
        spec_data_response(line, 12)
    } else if line.len() == 24 {
        spec_data_response(line, 18)
    } else if line.len() == 27 {
        spec_data_response(line + pad1(), 20)
    } else if line.len() == 46 {
        spec_data_response(line + pad2(), 34)
    } else if line.len() == 48 {
        spec_data_response(line, 36)
    } else {
        Response::Error
    }
}

fn remainder<'a>(line: &'a [u8], n: usize) -> (r: &'a [u8])
    requires
        n <= line@.len(),
    ensures
        r@ == trim_start_spec(line@.skip(n as int)),
{
    let rest = vstd::slice::slice_subrange(line, n, line.len());
    proof {
        assert(rest@ =~= line@.skip(n as int));
    }
    trim_start_bytes(rest)
}

/// Classify one trimmed line of bytes into exactly one [`Response`].
///
/// Total over every byte sequence: any classification or decoding failure
/// yields `Response::Error`, and the function never panics.
pub fn parse(line: &[u8]) -> (r: Response)
    ensures
        r == spec_parse(line@),
{
    let ghost len = line@.len() as int;
    // find the end of the first space-separated field
    let mut e: usize = 0;
    while e < line.len() && line[e] != 32
        invariant
            0 <= e <= line@.len(),
            forall|k: int| 0 <= k < e ==> line@[k] != 32,
        decreases line@.len() - e,
    {
        e += 1;
    }
    let tok = vstd::slice::slice_subrange(line, 0, e);
    proof {
        if e < line@.len() {
            assert(line@ =~= line@.subrange(0, e as int) + seq![32u8] + line@.subrange(
                e as int + 1,
                len,
            ));
            lemma_split_sp_concat(line@.subrange(0, e as int), line@.subrange(e as int + 1, len));
        } else {
            assert(line@.subrange(0, e as int) =~= line@);
            lemma_split_sp_no_space(line@);
        }
        assert(tok@ == leading_token(line@));
    }
    let pre_si: [u8; 3] = [95, 115, 105];
    let pre_dev: [u8; 4] = [95, 100, 101, 118];
    let pre_ch: [u8; 3] = [95, 99, 104];
    let pre_auto: [u8; 9] = [95, 97, 117, 116, 111, 95, 111, 102, 102];
    let pre_ok: [u8; 3] = [95, 111, 107];
    let pre_dm: [u8; 9] = [95, 100, 97, 116, 97, 109, 111, 100, 101];
    proof {
        assert(pre_si@ =~= si_prefix());
        assert(pre_dev@ =~= dev_prefix());
        assert(pre_ch@ =~= ch_prefix());
        assert(pre_auto@ =~= auto_off_prefix());
        assert(pre_ok@ =~= ok_prefix());
        assert(pre_dm@ =~= datamode_prefix());
    }
    if bytes_eq(tok, pre_si.as_slice()) {
        match parse_si(remainder(line, 3)) {
            Some((id, info)) => Response::SensorInfo(id, info),
            None => Response::Error,
        }
    } else if bytes_eq(tok, pre_dev.as_slice()) {
        match parse_dev(remainder(line, 4)) {
            Some((id, addr)) => Response::Device(id, addr),
            None => Response::Error,
        }
    } else if bytes_eq(tok, pre_ch.as_slice()) {
        match parse_ch(remainder(line, 3)) {
            Some(ch) => Response::Channel(ch),
            None => Response::Error,
        }
    } else if bytes_eq(tok, pre_auto.as_slice()) {
        match parse_auto_off(remainder(line, 9)) {
            Some((enable, duration)) => Response::AutoOff(enable, duration),
            None => Response::Error,
        }
    } else if bytes_eq(tok, pre_ok.as_slice()) {
        match parse_ok(remainder(line, 3)) {
            Some(ack) => Response::Acknowledge(ack),
            None => Response::Error,
        }
    } else if bytes_eq(tok, pre_dm.as_slice()) {
        match parse_datamode(remainder(line, 9)) {
            Some(dm) => Response::Datamode(dm),
            None => Response::Error,
        }
    } else if line.len() == 14 {
        let mut padded = vstd::slice::slice_to_vec(line);
        padded.push(61);
        padded.push(61);
        proof {
            assert(padded@ =~= line@ + pad2());
        }
        data_response(&padded, 10)
    } else if line.len() == 16 {
        let padded = vstd::slice::slice_to_vec(line);
        data_response(&padded, 12)
    } else if line.len() == 24 {
        let padded = vstd::slice::slice_to_vec(line);
        data_response(&padded, 18)
    } else if line.len() == 27 {
        let mut padded = vstd::slice::slice_to_vec(line);
        padded.push(61);
        proof {
            assert(padded@ =~= line@ + pad1());
        }
        data_response(&padded, 20)
    } else if line.len() == 46 {
        let mut padded = vstd::slice::slice_to_vec(line);
        padded.push(61);
        padded.push(61);
        proof {
            assert(padded@ =~= line@ + pad2());
        }
        data_response(&padded, 34)
    } else if line.len() == 48 {
        let padded = vstd::slice::slice_to_vec(line);
        data_response(&padded, 36)
    } else {
        Response::Error
    }
}

impl Response {
    /// What a whole buffered line yields: classification of the line with
    /// surrounding ASCII whitespace (the line terminator included) removed.
    pub open spec fn spec_from_bytes(buffer: Seq<u8>) -> Response {
        spec_parse(trim_spec(buffer))
    }
}

impl From<Vec<u8>> for Response {
    /// Classify one raw buffered line, newline terminator and all.
    fn from(buffer: Vec<u8>) -> (r: Response) {
        let t = trim_bytes(buffer.as_slice());
        parse(t)
    }
}

impl vstd::std_specs::convert::FromSpecImpl<Vec<u8>> for Response {
    open spec fn obeys_from_spec() -> bool {
        true
    }

    open spec fn from_spec(buffer: Vec<u8>) -> Response {
        Response::spec_from_bytes(buffer@)
    }
}



// ---------------------------------------------------------------------------
// Laws: only device replies round-trip through `parse`
// ---------------------------------------------------------------------------
/// The shortest decimal digit string for `n`, most significant digit
/// first: the text a device reply carries for a number.
pub open spec fn dec_bytes(n: nat) -> Seq<u8>
    decreases n,
{
    if n < 10 {
        seq![(48 + n) as u8]
    } else {
        dec_bytes(n / 10) + seq![(48 + n % 10) as u8]
    }
}

pub proof fn lemma_dec_bytes_digits(n: nat)
    ensures
        dec_bytes(n).len() >= 1,
        all_digits(dec_bytes(n)),
    decreases n,
{
    if n < 10 {
    } else {
        lemma_dec_bytes_digits(n / 10);
        assert forall|k: int| 0 <= k < dec_bytes(n).len() implies is_digit(dec_bytes(n)[k]) by {
            if k < dec_bytes(n / 10).len() {
                assert(dec_bytes(n)[k] == dec_bytes(n / 10)[k]);
            }
        }
    }
}

pub proof fn lemma_dec_bytes_val(n: nat)
    ensures
        dec_val(dec_bytes(n)) == n,
    decreases n,
{
    if n < 10 {
        let s = dec_bytes(n);
        assert(s.take(s.len() - 1) =~= Seq::<u8>::empty());
        assert(dec_val(Seq::<u8>::empty()) == 0);
        assert(s[s.len() - 1] == (48 + n) as u8);
        assert(dec_val(s) == (dec_val(s.take(s.len() - 1)) * 10 + s[s.len() - 1] - 48) as nat);
    } else {
        lemma_dec_bytes_val(n / 10);
        let s = dec_bytes(n);
        let a = dec_bytes(n / 10);
        assert(s.take(s.len() - 1) =~= a);
        assert(s[s.len() - 1] == (48 + n % 10) as u8);
        assert(dec_val(s) == (dec_val(s.take(s.len() - 1)) * 10 + s[s.len() - 1] - 48) as nat);
        assert(dec_val(s) == (n / 10) * 10 + n % 10);
        assert((n / 10) * 10 + n % 10 == n) by (nonlinear_arith);
    }
}

/// The decimal text of a byte parses back to exactly that byte.
pub proof fn lemma_parse_u8_dec_bytes(n: u8)
    ensures
        parse_u8_spec(dec_bytes(n as nat)) == Some(n),
{
    lemma_dec_bytes_digits(n as nat);
    lemma_dec_bytes_val(n as nat);
    assert(is_digit(dec_bytes(n as nat)[0]));
}

/// The decimal text of a 64-bit count parses back to exactly that count.
pub proof fn lemma_parse_u64_dec_bytes(n: u64)
    ensures
        parse_u64_spec(dec_bytes(n as nat)) == Some(n),
{
    lemma_dec_bytes_digits(n as nat);
    lemma_dec_bytes_val(n as nat);
    assert(is_digit(dec_bytes(n as nat)[0]));
}

proof fn lemma_trim_start_of_unpadded(s: Seq<u8>)
    requires
        s.len() >= 1,
        !is_ascii_ws(s[0]),
    ensures
        trim_start_spec(seq![32u8] + s) == s,
{
    lemma_trim_start_step(seq![32u8] + s);
    assert((seq![32u8] + s).skip(1) =~= s);
}

proof fn lemma_no_space_in_digits(s: Seq<u8>)
    requires
        all_digits(s),
    ensures
        forall|k: int| 0 <= k < s.len() ==> s[k] != 32,
{
}

/// A `_ch <n>` reply line parses back to `Channel(n)`: the channel reply
/// encoding round-trips, for every channel byte.
pub proof fn lemma_channel_reply_round_trip(n: u8)
    ensures
        spec_parse(ch_prefix() + seq![32u8] + dec_bytes(n as nat)) == Response::Channel(n),
{
    let d = dec_bytes(n as nat);
    let line = ch_prefix() + seq![32u8] + d;
    lemma_dec_bytes_digits(n as nat);
    lemma_no_space_in_digits(d);
    lemma_split_sp_concat(ch_prefix(), d);
    assert(leading_token(line) == ch_prefix());
    assert(line.skip(3) =~= seq![32u8] + d);
    lemma_trim_start_of_unpadded(d);
    lemma_parse_u8_dec_bytes(n);
}

/// A `_datamode <n>` reply line parses back to `Datamode(n)`, for every
/// data-mode byte.
pub proof fn lemma_datamode_reply_round_trip(n: u8)
    ensures
        spec_parse(datamode_prefix() + seq![32u8] + dec_bytes(n as nat)) == Response::Datamode(n),
{
    let d = dec_bytes(n as nat);
    let line = datamode_prefix() + seq![32u8] + d;
    lemma_dec_bytes_digits(n as nat);
    lemma_no_space_in_digits(d);
    lemma_split_sp_concat(datamode_prefix(), d);
    assert(leading_token(line) == datamode_prefix());
    assert(line.skip(9) =~= seq![32u8] + d);
    lemma_trim_start_of_unpadded(d);
    lemma_parse_u8_dec_bytes(n);
}

/// An `_auto_off <enable> <duration>` reply line parses back to
/// `AutoOff(enable, duration)`, for every flag byte and duration.
pub proof fn lemma_auto_off_reply_round_trip(enable: u8, duration: u64)
    ensures
        spec_parse(
            auto_off_prefix() + seq![32u8] + dec_bytes(enable as nat) + seq![32u8] + dec_bytes(
                duration as nat,
            ),
        ) == Response::AutoOff(enable, duration),
{
    let da = dec_bytes(enable as nat);
    let dd = dec_bytes(duration as nat);
    let rest = da + seq![32u8] + dd;
    let line = auto_off_prefix() + seq![32u8] + da + seq![32u8] + dd;
    lemma_dec_bytes_digits(enable as nat);
    lemma_dec_bytes_digits(duration as nat);
    lemma_no_space_in_digits(da);
    lemma_no_space_in_digits(dd);
    assert(line =~= auto_off_prefix() + seq![32u8] + rest);
    lemma_split_sp_concat(auto_off_prefix(), rest);
    assert(leading_token(line) == auto_off_prefix());
    assert(line.skip(9) =~= seq![32u8] + rest);
    assert(!is_ascii_ws(rest[0]));
    lemma_trim_start_of_unpadded(rest);
    lemma_split_sp_concat(da, dd);
    lemma_split_sp_no_space(dd);
    assert(split_sp(rest) =~~= seq![da, dd]);
    lemma_parse_u8_dec_bytes(enable);
    lemma_parse_u64_dec_bytes(duration);
}

/// Each acknowledge reply line parses back to the matching
/// `Acknowledge` value: a bare `_ok` to `Alive`, and `_ok` with the
/// literal restart / wifi / quit-config text to that kind.
pub proof fn lemma_acknowledge_reply_round_trip()
    ensures
        spec_parse(ok_prefix()) == Response::Acknowledge(AcknowledgeType::Alive),
        spec_parse(ok_prefix() + seq![32u8] + esp_restart_text()) == Response::Acknowledge(
            AcknowledgeType::RestartAP,
        ),
        spec_parse(ok_prefix() + seq![32u8] + wifi_on_text()) == Response::Acknowledge(
            AcknowledgeType::StartWifi,
        ),
        spec_parse(ok_prefix() + seq![32u8] + quit_config_text()) == Response::Acknowledge(
            AcknowledgeType::QuitConfig,
        ),
{
    lemma_split_sp_no_space(ok_prefix());
    assert(leading_token(ok_prefix()) == ok_prefix());
    assert(ok_prefix().skip(3) =~= Seq::<u8>::empty());

    let le = ok_prefix() + seq![32u8] + esp_restart_text();
    lemma_split_sp_concat(ok_prefix(), esp_restart_text());
    assert(leading_token(le) == ok_prefix());
    assert(le.skip(3) =~= seq![32u8] + esp_restart_text());
    lemma_trim_start_of_unpadded(esp_restart_text());

    let lw = ok_prefix() + seq![32u8] + wifi_on_text();
    lemma_split_sp_concat(ok_prefix(), wifi_on_text());
    assert(leading_token(lw) == ok_prefix());
    assert(lw.skip(3) =~= seq![32u8] + wifi_on_text());
    lemma_trim_start_of_unpadded(wifi_on_text());

    let lq = ok_prefix() + seq![32u8] + quit_config_text();
    lemma_split_sp_concat(ok_prefix(), quit_config_text());
    assert(leading_token(lq) == ok_prefix());
    assert(lq.skip(3) =~= seq![32u8] + quit_config_text());
    lemma_trim_start_of_unpadded(quit_config_text());
}

/// Telemetry framing is strictly length-coded: a line whose first field is
/// no recognized command echo and whose length is outside
/// {14, 16, 24, 27, 46, 48} always classifies as `Error`.
pub proof fn lemma_unrecognized_length_is_error(line: Seq<u8>)
    requires
        leading_token(line) != si_prefix(),
        leading_token(line) != dev_prefix(),
        leading_token(line) != ch_prefix(),
        leading_token(line) != auto_off_prefix(),
        leading_token(line) != ok_prefix(),
        leading_token(line) != datamode_prefix(),
        line.len() != 14,
        line.len() != 16,
        line.len() != 24,
        line.len() != 27,
        line.len() != 46,
        line.len() != 48,
    ensures
        spec_parse(line) == Response::Error,
{
}


} // verus!
