//! One event record as one self-contained JSON line.
//!
//! The line is pure ASCII: characters outside the printable ASCII
//! range are written as `\u` escapes, so one byte of output is one
//! character and no record ever embeds a raw newline. The whole
//! format is pinned down byte for byte by [`spec_entry_json`].
use crate::record::{LogEntry, LogEntryV};
use vstd::prelude::*;
use vstd::utf8::is_ascii_chars;

verus! {

/// The byte for one hex digit, lowercase.
pub open spec fn hex_digit(n: int) -> u8 {
    if n < 10 {
        (48 + n) as u8
    } else {
        (87 + n) as u8
    }
}

/// Four hex digits for a 16-bit value.
pub open spec fn hex4(n: int) -> Seq<u8> {
    seq![
        hex_digit(n / 4096 % 16),
        hex_digit(n / 256 % 16),
        hex_digit(n / 16 % 16),
        hex_digit(n % 16),
    ]
}

/// The JSON encoding of one character of a string field: printable
/// ASCII passes through, quote and backslash take a backslash, and
/// everything else becomes `\u` escapes (a surrogate pair above the
/// basic plane), keeping the output pure ASCII.
pub open spec fn esc_char(c: char) -> Seq<u8> {
    let u = c as u32;
    if c == '"' {
        seq![92u8, 34u8]
    } else if c == '\\' {
        seq![92u8, 92u8]
    } else if u < 0x20 {
        seq![92u8, 117u8, 48u8, 48u8, hex_digit(u as int / 16), hex_digit(u as int % 16)]
    } else if u < 0x80 {
        seq![c as u8]
    } else if u < 0x10000 {
        seq![92u8, 117u8] + hex4(u as int)
    } else {
        seq![92u8, 117u8] + hex4(0xd800 + (u - 0x10000) as int / 1024) + seq![92u8, 117u8]
            + hex4(0xdc00 + (u - 0x10000) as int % 1024)
    }
}

/// The JSON encoding of a whole string field, character by character.
pub open spec fn json_escape(s: Seq<char>) -> Seq<u8>
    decreases s.len(),
{
    if s.len() == 0 {
        Seq::empty()
    } else {
        json_escape(s.drop_last()) + esc_char(s.last())
    }
}

/// The decimal digits of a natural number.
pub open spec fn dec_nat(n: nat) -> Seq<u8>
    decreases n,
{
    if n < 10 {
        seq![(48 + n) as u8]
    } else {
        dec_nat(n / 10) + seq![(48 + n % 10) as u8]
    }
}

/// A signed integer in decimal, a minus sign first when negative.
pub open spec fn dec_int(i: int) -> Seq<u8> {
    if i < 0 {
        seq![45u8] + dec_nat((-i) as nat)
    } else {
        dec_nat(i as nat)
    }
}

/// An ASCII character sequence as its bytes, one per character.
pub open spec fn ascii_str(s: Seq<char>) -> Seq<u8> {
    Seq::new(s.len(), |i| s[i] as u8)
}

/// The serialized JSON object for one record, without the trailing
/// newline: the six fields in declaration order, text fields escaped,
/// the timestamp as a bare decimal.
#[verifier::opaque]
pub open spec fn spec_entry_json(e: LogEntryV) -> Seq<u8> {
    ascii_str("{\"chain\":\""@) + json_escape(e.chain) + ascii_str("\",\"attacker\":\""@)
        + json_escape(e.attacker) + ascii_str("\",\"action\":\""@) + json_escape(e.action)
        + ascii_str("\",\"amount\":\""@) + json_escape(e.amount) + ascii_str("\",\"timestamp\":"@)
        + dec_int(e.timestamp) + ascii_str(",\"tx_hash\":\""@) + json_escape(e.tx_hash)
        + ascii_str("\"}"@)
}

/// One full line of the current file: the object plus the newline.
pub open spec fn spec_entry_line(e: LogEntryV) -> Seq<u8> {
    spec_entry_json(e) + seq![10u8]
}

fn hex_digit_exec(n: u32) -> (r: u8)
    requires
        n < 16,
    ensures
        r == hex_digit(n as int),
{
    if n < 10 {
        (48 + n) as u8
    } else {
        (87 + n) as u8
    }
}

fn push_hex4(out: &mut Vec<u8>, n: u32)
    requires
        n < 0x10000,
    ensures
        final(out)@ == old(out)@ + hex4(n as int),
{
    out.push(hex_digit_exec(n / 4096 % 16));
    out.push(hex_digit_exec(n / 256 % 16));
    out.push(hex_digit_exec(n / 16 % 16));
    out.push(hex_digit_exec(n % 16));
    assert(out@ =~= old(out)@ + hex4(n as int));
}

/// Appends the bytes of an ASCII literal.
fn push_lit(out: &mut Vec<u8>, s: &str)
    requires
        is_ascii_chars(s@),
    ensures
        final(out)@ == old(out)@ + ascii_str(s@),
{
    let n = s.unicode_len();
    let mut i: usize = 0;
    while i < n
        invariant
            is_ascii_chars(s@),
            n == s@.len(),
            i <= n,
            out@ == old(out)@ + ascii_str(s@).take(i as int),
        decreases n - i,
    {
        out.push(s.get_ascii(i));
        assert(out@ =~= old(out)@ + ascii_str(s@).take(i + 1));
        i = i + 1;
    }
    assert(ascii_str(s@).take(n as int) =~= ascii_str(s@));
}

/// Appends the JSON escaping of one character.
fn push_esc_char(out: &mut Vec<u8>, c: char)
    ensures
        final(out)@ == old(out)@ + esc_char(c),
{
    let u = c as u32;
    if c == '"' {
        out.push(92);
        out.push(34);
    } else if c == '\\' {
        out.push(92);
        out.push(92);
    } else if u < 0x20 {
        out.push(92);
        out.push(117);
        out.push(48);
        out.push(48);
        out.push(hex_digit_exec(u / 16));
        out.push(hex_digit_exec(u % 16));
    } else if u < 0x80 {
        out.push(c as u8);
    } else if u < 0x10000 {
        out.push(92);
        out.push(117);
        push_hex4(out, u);
    } else {
        out.push(92);
        out.push(117);
        push_hex4(out, 0xd800 + (u - 0x10000) / 1024);
        out.push(92);
        out.push(117);
        push_hex4(out, 0xdc00 + (u - 0x10000) % 1024);
    }
    assert(out@ =~= old(out)@ + esc_char(c));
}

/// The escaping of an ASCII character, settled at its byte: its
/// sequence is what the byte alone determines.
proof fn lemma_esc_ascii_byte(c: char, b: u8)
    requires
        (c as nat) < 128,
        b == c as u8,
    ensures
        b as u32 == c as u32,
        (b == 34) <==> (c == '"'),
        (b == 92) <==> (c == '\\'),
        esc_char(c) == if b == 34 {
            seq![92u8, 34u8]
        } else if b == 92 {
            seq![92u8, 92u8]
        } else if b < 32 {
            seq![
                92u8,
                117u8,
                48u8,
                48u8,
                hex_digit((b as int) / 16),
                hex_digit((b as int) % 16),
            ]
        } else {
            seq![b]
        },
{
    if c as u32 == 34 {
        vstd::utf8::char_u32_cast(c, 34);
        vstd::utf8::char_u32_cast('"', 34);
    }
    if c as u32 == 92 {
        vstd::utf8::char_u32_cast(c, 92);
        vstd::utf8::char_u32_cast('\\', 92);
    }
}

/// Appends the JSON escaping of one string field. An ASCII field is
/// walked byte by byte; only a field with characters beyond ASCII
/// takes the per-character decoding path.
fn push_escaped(out: &mut Vec<u8>, s: &str)
    ensures
        final(out)@ == old(out)@ + json_escape(s@),
{
    let n = s.unicode_len();
    let mut i: usize = 0;
    if s.is_ascii() {
        while i < n
            invariant
                is_ascii_chars(s@),
                n == s@.len(),
                i <= n,
                out@ == old(out)@ + json_escape(s@.take(i as int)),
            decreases n - i,
        {
            let b = s.get_ascii(i);
            proof {
                vstd::utf8::is_ascii_chars_nat_bound(s@);
                lemma_esc_ascii_byte(s@[i as int], b);
            }
            if b == 34 {
                out.push(92);
                out.push(34);
            } else if b == 92 {
                out.push(92);
                out.push(92);
            } else if b < 32 {
                out.push(92);
                out.push(117);
                out.push(48);
                out.push(48);
                out.push(hex_digit_exec((b as u32) / 16));
                out.push(hex_digit_exec((b as u32) % 16));
            } else {
                out.push(b);
            }
            proof {
                assert(s@.take(i + 1).drop_last() =~= s@.take(i as int));
                assert(s@.take(i + 1).last() == s@[i as int]);
                assert(out@ =~= old(out)@ + json_escape(s@.take(i + 1)));
            }
            i = i + 1;
        }
    } else {
        while i < n
            invariant
                n == s@.len(),
                i <= n,
                out@ == old(out)@ + json_escape(s@.take(i as int)),
            decreases n - i,
        {
            let c = s.get_char(i);
            push_esc_char(out, c);
            proof {
                assert(s@.take(i + 1).drop_last() =~= s@.take(i as int));
                assert(s@.take(i + 1).last() == s@[i as int]);
                assert(out@ =~= old(out)@ + json_escape(s@.take(i + 1)));
            }
            i = i + 1;
        }
    }
    assert(s@.take(n as int) =~= s@);
}

/// Appends the decimal digits of `n`.
fn push_dec_u64(out: &mut Vec<u8>, n: u64)
    ensures
        final(out)@ == old(out)@ + dec_nat(n as nat),
    decreases n,
{
    if n >= 10 {
        push_dec_u64(out, n / 10);
    }
    out.push(48 + (n % 10) as u8);
    assert(out@ =~= old(out)@ + dec_nat(n as nat));
}

/// Appends a signed decimal.
fn push_dec_i64(out: &mut Vec<u8>, t: i64)
    ensures
        final(out)@ == old(out)@ + dec_int(t as int),
{
    if t >= 0 {
        push_dec_u64(out, t as u64);
    } else {
        out.push(45);
        let m: u64 = ((-(t + 1)) as u64) + 1;
        assert(m as int == -(t as int));
        push_dec_u64(out, m);
        assert(out@ =~= old(out)@ + dec_int(t as int));
    }
}

proof fn lemma_esc_char_no_newline(c: char)
    ensures
        forall|i: int| 0 <= i < esc_char(c).len() ==> esc_char(c)[i] != 10u8,
{
}

proof fn lemma_dec_nat_no_newline(n: nat)
    ensures
        forall|i: int| 0 <= i < dec_nat(n).len() ==> dec_nat(n)[i] != 10u8,
    decreases n,
{
    if n >= 10 {
        lemma_dec_nat_no_newline(n / 10);
        assert forall|i: int| 0 <= i < dec_nat(n).len() implies dec_nat(n)[i] != 10u8 by {
            if i < dec_nat(n / 10).len() {
                assert(dec_nat(n)[i] == dec_nat(n / 10)[i]);
            } else {
                assert(dec_nat(n)[i] == (48 + n % 10) as u8);
            }
        }
    }
}

proof fn lemma_dec_int_no_newline(v: int)
    ensures
        forall|i: int| 0 <= i < dec_int(v).len() ==> dec_int(v)[i] != 10u8,
{
    if v < 0 {
        lemma_dec_nat_no_newline((-v) as nat);
    } else {
        lemma_dec_nat_no_newline(v as nat);
    }
}

proof fn lemma_json_escape_no_newline(s: Seq<char>)
    ensures
        forall|i: int| 0 <= i < json_escape(s).len() ==> json_escape(s)[i] != 10u8,
    decreases s.len(),
{
    if s.len() > 0 {
        lemma_json_escape_no_newline(s.drop_last());
        lemma_esc_char_no_newline(s.last());
        let head = json_escape(s.drop_last());
        let tail = esc_char(s.last());
        assert forall|i: int| 0 <= i < json_escape(s).len() implies json_escape(s)[i] != 10u8 by {
            if i < head.len() {
                assert(json_escape(s)[i] == head[i]);
            } else {
                assert(json_escape(s)[i] == tail[i - head.len()]);
            }
        }
    }
}

proof fn lemma_ascii_str_no_newline(s: Seq<char>)
    requires
        forall|i: int| 0 <= i < s.len() ==> s[i] != '\n',
        is_ascii_chars(s),
    ensures
        forall|i: int| 0 <= i < ascii_str(s).len() ==> ascii_str(s)[i] != 10u8,
{
    vstd::utf8::is_ascii_chars_nat_bound(s);
    assert forall|i: int| 0 <= i < ascii_str(s).len() implies ascii_str(s)[i] != 10u8 by {
        if s[i] as u8 == 10u8 {
            vstd::utf8::char_u32_cast(s[i], 10);
            vstd::utf8::char_u32_cast('\n', 10);
        }
    }
}

/// A record is one self-contained line: its serialized form ends in
/// exactly one newline byte and embeds none before it, whatever the
/// fields hold, so lines in the current file never run together.
pub proof fn lemma_line_single_newline(e: LogEntryV)
    ensures
        spec_entry_line(e).len() > 0,
        spec_entry_line(e).last() == 10u8,
        forall|i: int| 0 <= i < spec_entry_line(e).len() - 1 ==> spec_entry_line(e)[i] != 10u8,
{
    reveal(spec_entry_json);
    reveal_strlit("{\"chain\":\"");
    reveal_strlit("\",\"attacker\":\"");
    reveal_strlit("\",\"action\":\"");
    reveal_strlit("\",\"amount\":\"");
    reveal_strlit("\",\"timestamp\":");
    reveal_strlit(",\"tx_hash\":\"");
    reveal_strlit("\"}");
    lemma_ascii_str_no_newline("{\"chain\":\""@);
    lemma_ascii_str_no_newline("\",\"attacker\":\""@);
    lemma_ascii_str_no_newline("\",\"action\":\""@);
    lemma_ascii_str_no_newline("\",\"amount\":\""@);
    lemma_ascii_str_no_newline("\",\"timestamp\":"@);
    lemma_ascii_str_no_newline(",\"tx_hash\":\""@);
    lemma_ascii_str_no_newline("\"}"@);
    lemma_json_escape_no_newline(e.chain);
    lemma_json_escape_no_newline(e.attacker);
    lemma_json_escape_no_newline(e.action);
    lemma_json_escape_no_newline(e.amount);
    lemma_json_escape_no_newline(e.tx_hash);
    lemma_dec_int_no_newline(e.timestamp);
}

/// Serializes one record as its JSON object, [`spec_entry_json`]
/// exactly, without the trailing newline.
pub fn serialize_entry(e: &LogEntry) -> (r: Vec<u8>)
    ensures
        r@ == spec_entry_json(e@),
{
    proof {
        reveal(spec_entry_json);
        reveal_strlit("{\"chain\":\"");
        reveal_strlit("\",\"attacker\":\"");
        reveal_strlit("\",\"action\":\"");
        reveal_strlit("\",\"amount\":\"");
        reveal_strlit("\",\"timestamp\":");
        reveal_strlit(",\"tx_hash\":\"");
        reveal_strlit("\"}");
    }
    let mut out: Vec<u8> = Vec::new();
    push_lit(&mut out, "{\"chain\":\"");
    push_escaped(&mut out, e.chain.as_str());
    push_lit(&mut out, "\",\"attacker\":\"");
    push_escaped(&mut out, e.attacker.as_str());
    push_lit(&mut out, "\",\"action\":\"");
    push_escaped(&mut out, e.action.as_str());
    push_lit(&mut out, "\",\"amount\":\"");
    push_escaped(&mut out, e.amount.as_str());
    push_lit(&mut out, "\",\"timestamp\":");
    push_dec_i64(&mut out, e.timestamp);
    push_lit(&mut out, ",\"tx_hash\":\"");
    push_escaped(&mut out, e.tx_hash.as_str());
    push_lit(&mut out, "\"}");
    out
}

/// Serializes one record as one full line of the current file.
pub fn serialize_line(e: &LogEntry) -> (r: Vec<u8>)
    ensures
        r@ == spec_entry_line(e@),
{
    let mut out = serialize_entry(e);
    out.push(10);
    out
}

} // verus!
