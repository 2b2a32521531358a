//! The JSON text codec for the wire frames.
//!
//! Frames travel as text JSON in a fixed canonical shape: objects
//! tagged with the variant name, fields in declared order, numbers in
//! plain decimal, UUIDs in lowercase hyphenated form, and strings
//! escaped exactly as the server's serializer writes them (`\"`,
//! `\\`, the short escapes `\b` `\t` `\n` `\f` `\r`, and `\u00xx`
//! for the remaining control characters).  The specification
//! functions here pin down every character of an encoded frame; the
//! decoder accepts exactly the canonical text, which it certifies by
//! re-encoding what it parsed.

use vstd::prelude::*;
use crate::domain::UuidValue;
use crate::wire::{Ack, ChatContent, ClientToServer, Distribute, ServerToClient};

verus! {

/// The decimal digit character for `d`.
pub open spec fn dec_digit(d: nat) -> char {
    if d == 0 { '0' }
    else if d == 1 { '1' }
    else if d == 2 { '2' }
    else if d == 3 { '3' }
    else if d == 4 { '4' }
    else if d == 5 { '5' }
    else if d == 6 { '6' }
    else if d == 7 { '7' }
    else if d == 8 { '8' }
    else { '9' }
}

/// The plain decimal rendering of `n`, without leading zeroes.
pub open spec fn dec_str(n: nat) -> Seq<char>
    decreases n,
{
    if n < 10 {
        seq![dec_digit(n)]
    } else {
        dec_str(n / 10).push(dec_digit(n % 10))
    }
}

/// Whether `c` is a decimal digit.
pub open spec fn is_digit(c: char) -> bool {
    48 <= c as u32 <= 57
}

/// The numeric value of a digit character.
pub open spec fn digit_val(c: char) -> nat {
    if is_digit(c) {
        (c as u32 - 48) as nat
    } else {
        0
    }
}

/// The value of a digit string, most significant digit first.
pub open spec fn digits_val(s: Seq<char>) -> nat
    decreases s.len(),
{
    if s.len() == 0 {
        0
    } else {
        digits_val(s.drop_last()) * 10 + digit_val(s.last())
    }
}

/// `n` rendered at `pos` in `s`: exactly its decimal digits, followed
/// by the end of the text or something that is not a digit.
pub open spec fn canonical_u64_at(s: Seq<char>, pos: int, n: u64) -> bool {
    &&& 0 <= pos
    &&& pos + dec_str(n as nat).len() <= s.len()
    &&& s.subrange(pos, pos + dec_str(n as nat).len()) == dec_str(n as nat)
    &&& (pos + dec_str(n as nat).len() == s.len() || !is_digit(s[pos + dec_str(n as nat).len()]))
}

/// The lowercase hexadecimal digit character for `d`.
pub open spec fn hex_digit(d: nat) -> char {
    if d < 10 { dec_digit(d) }
    else if d == 10 { 'a' }
    else if d == 11 { 'b' }
    else if d == 12 { 'c' }
    else if d == 13 { 'd' }
    else if d == 14 { 'e' }
    else { 'f' }
}

/// The `k`-th nibble of `u`, counting from the most significant.
pub open spec fn nibble(u: u128, k: int) -> nat {
    ((u >> (((31 - k) * 4) as u128)) & 0xf) as nat
}

/// The hex digits of nibbles `start .. start + len` of `u`.
pub open spec fn hex_nibbles(u: u128, start: int, len: nat) -> Seq<char>
    decreases len,
{
    if len == 0 {
        Seq::empty()
    } else {
        seq![hex_digit(nibble(u, start))] + hex_nibbles(u, start + 1, (len - 1) as nat)
    }
}

/// The lowercase hyphenated rendering of a UUID: five hex groups of
/// 8, 4, 4, 4 and 12 digits.
pub open spec fn uuid_str(u: u128) -> Seq<char> {
    hex_nibbles(u, 0, 8) + seq!['-'] + hex_nibbles(u, 8, 4) + seq!['-'] + hex_nibbles(u, 12, 4)
        + seq!['-'] + hex_nibbles(u, 16, 4) + seq!['-'] + hex_nibbles(u, 20, 12)
}

/// How one character appears inside a JSON string literal.
pub open spec fn esc_char(c: char) -> Seq<char> {
    if c == '"' { seq!['\\', '"'] }
    else if c == '\\' { seq!['\\', '\\'] }
    else if c == '\u{8}' { seq!['\\', 'b'] }
    else if c == '\t' { seq!['\\', 't'] }
    else if c == '\n' { seq!['\\', 'n'] }
    else if c == '\u{c}' { seq!['\\', 'f'] }
    else if c == '\r' { seq!['\\', 'r'] }
    else if (c as u32) < 0x20 {
        seq!['\\', 'u', '0', '0', hex_digit((c as u32 / 16) as nat), hex_digit(
            (c as u32 % 16) as nat,
        )]
    } else {
        seq![c]
    }
}

/// A whole string, escaped for a JSON string literal.
pub open spec fn json_escape(s: Seq<char>) -> Seq<char>
    decreases s.len(),
{
    if s.len() == 0 {
        Seq::empty()
    } else {
        esc_char(s.first()) + json_escape(s.skip(1))
    }
}

/// The JSON object for a chat body.
pub open spec fn json_of_content(c: ChatContent) -> Seq<char> {
    "{\"conversation_id\":\""@ + uuid_str(c.conversation_id.0.bits) + "\",\"content\":\""@
        + json_escape(c.content@) + "\"}"@
}

/// The JSON text of a client-to-server frame.
pub open spec fn json_of_client(f: ClientToServer) -> Seq<char> {
    match f {
        ClientToServer::Send(m) => "{\"Send\":{\"message_seq\":"@ + dec_str(m.message_seq as nat)
            + ",\"content\":"@ + json_of_content(m.content) + "}}"@,
    }
}

/// The JSON text of a server-to-client frame.
pub open spec fn json_of_server(f: ServerToClient) -> Seq<char> {
    match f {
        ServerToClient::Ack(a) => "{\"ACK\":{\"message_seq\":"@ + dec_str(a.message_seq as nat)
            + "}}"@,
        ServerToClient::Distribute(d) => "{\"Distribute\":{\"sender\":\""@ + uuid_str(
            d.sender.0.bits,
        ) + "\",\"content\":"@ + json_of_content(d.content) + "}}"@,
    }
}

proof fn lemma_dec_str_digits(n: nat)
    ensures
        dec_str(n).len() >= 1,
        forall|i: int| 0 <= i < dec_str(n).len() ==> is_digit(#[trigger] dec_str(n)[i]),
        digits_val(dec_str(n)) == n,
    decreases n,
{
    assert('0' as u32 == 48 && '1' as u32 == 49 && '2' as u32 == 50 && '3' as u32 == 51
        && '4' as u32 == 52 && '5' as u32 == 53 && '6' as u32 == 54 && '7' as u32 == 55
        && '8' as u32 == 56 && '9' as u32 == 57);
    if n < 10 {
        assert(is_digit(dec_digit(n)) && digit_val(dec_digit(n)) == n);
        assert(dec_str(n).drop_last() =~= Seq::<char>::empty());
        assert(digits_val(Seq::<char>::empty()) == 0);
        assert(digits_val(dec_str(n)) == digits_val(dec_str(n).drop_last()) * 10 + digit_val(
            dec_str(n).last(),
        ));
    } else {
        lemma_dec_str_digits(n / 10);
        let low = dec_digit(n % 10);
        assert(is_digit(low) && digit_val(low) == n % 10);
        assert(dec_str(n).drop_last() =~= dec_str(n / 10));
        assert(dec_str(n).last() == low);
        assert(digits_val(dec_str(n)) == (n / 10) * 10 + n % 10);
        assert forall|i: int| 0 <= i < dec_str(n).len() implies is_digit(
            #[trigger] dec_str(n)[i],
        ) by {
            if i < dec_str(n).len() - 1 {
                assert(dec_str(n)[i] == dec_str(n / 10)[i]);
            }
        }
    }
}

/// A digit-string prefix is worth no more than the whole string.
proof fn lemma_digits_val_prefix_le(s: Seq<char>, i: int)
    requires
        0 <= i <= s.len(),
    ensures
        digits_val(s.take(i)) <= digits_val(s),
    decreases s.len() - i,
{
    if i < s.len() {
        lemma_digits_val_prefix_le(s, i + 1);
        assert(s.take(i + 1).drop_last() =~= s.take(i));
        assert(digits_val(s.take(i + 1)) == digits_val(s.take(i)) * 10 + digit_val(
            s.take(i + 1).last(),
        ));
    } else {
        assert(s.take(i) =~= s);
    }
}

/// Relies on `String: FromIterator<char>`: collecting characters
/// builds the string of exactly those characters, in order.
#[verifier::external_body]
fn chars_to_string(v: &Vec<char>) -> (r: String)
    ensures
        r@ == v@,
{
    v.iter().collect()
}

/// The characters of `s`, as a vector.
fn str_chars(s: &str) -> (v: Vec<char>)
    ensures
        v@ == s@,
{
    let n = s.unicode_len();
    let mut v: Vec<char> = Vec::new();
    let mut i: usize = 0;
    while i < n
        invariant
            n == s@.len(),
            i <= n,
            v@ =~= s@.take(i as int),
        decreases n - i,
    {
        v.push(s.get_char(i));
        proof {
            assert(s@.take(i + 1) =~= s@.take(i as int).push(s@[i as int]));
        }
        i = i + 1;
    }
    proof {
        assert(s@.take(n as int) =~= s@);
    }
    v
}

/// Whether two strings hold the same characters.
fn str_eq_chars(a: &str, b: &str) -> (r: bool)
    ensures
        r == (a@ == b@),
{
    let na = a.unicode_len();
    let nb = b.unicode_len();
    if na != nb {
        return false;
    }
    let mut i: usize = 0;
    while i < na
        invariant
            na == a@.len(),
            na == b@.len(),
            i <= na,
            forall|k: int| 0 <= k < i ==> a@[k] == b@[k],
        decreases na - i,
    {
        if a.get_char(i) != b.get_char(i) {
            return false;
        }
        i = i + 1;
    }
    proof {
        assert(a@ =~= b@);
    }
    true
}

/// Append the characters of `s`.
fn push_str_chars(out: &mut Vec<char>, s: &str)
    ensures
        final(out)@ == old(out)@ + s@,
{
    let n = s.unicode_len();
    let mut i: usize = 0;
    proof {
        assert(out@ =~= old(out)@ + s@.take(0));
    }
    while i < n
        invariant
            n == s@.len(),
            i <= n,
            out@ =~= old(out)@ + s@.take(i as int),
        decreases n - i,
    {
        out.push(s.get_char(i));
        proof {
            assert(old(out)@ + s@.take(i + 1) =~= (old(out)@ + s@.take(i as int)).push(
                s@[i as int],
            ));
        }
        i = i + 1;
    }
    proof {
        assert(s@.take(n as int) =~= s@);
    }
}

/// The decimal digit character for `d`.
fn dec_digit_char(d: u64) -> (c: char)
    requires
        d < 10,
    ensures
        c == dec_digit(d as nat),
{
    if d == 0 { '0' }
    else if d == 1 { '1' }
    else if d == 2 { '2' }
    else if d == 3 { '3' }
    else if d == 4 { '4' }
    else if d == 5 { '5' }
    else if d == 6 { '6' }
    else if d == 7 { '7' }
    else if d == 8 { '8' }
    else { '9' }
}

/// Append the decimal rendering of `n`.
fn push_u64_chars(out: &mut Vec<char>, n: u64)
    ensures
        final(out)@ == old(out)@ + dec_str(n as nat),
{
    let mut digits: Vec<char> = Vec::new();
    let mut m: u64 = n;
    digits.push(dec_digit_char(m % 10));
    m = m / 10;
    proof {
        if n < 10 {
            assert(digits@.reverse() =~= seq![dec_digit(n as nat)]);
        } else {
            assert(dec_str(n as nat) =~= dec_str((n as nat) / 10) + seq![dec_digit(
                (n as nat) % 10,
            )]);
            assert(digits@.reverse() =~= seq![dec_digit((n as nat) % 10)]);
        }
    }
    while m > 0
        invariant
            (if m > 0 {
                dec_str(m as nat)
            } else {
                Seq::<char>::empty()
            }) + digits@.reverse() =~= dec_str(n as nat),
        decreases m,
    {
        let d = m % 10;
        let ghost pre = digits@;
        digits.push(dec_digit_char(d));
        let ghost mid = m as nat;
        m = m / 10;
        proof {
            assert(digits@.reverse() =~= seq![dec_digit(d as nat)] + pre.reverse());
            if mid < 10 {
                assert(dec_str(mid) =~= seq![dec_digit(d as nat)]);
            } else {
                assert(dec_str(mid) =~= dec_str(mid / 10) + seq![dec_digit(mid % 10)]);
            }
            assert((if m > 0 {
                dec_str(m as nat)
            } else {
                Seq::<char>::empty()
            }) + digits@.reverse() =~= dec_str(n as nat));
        }
    }
    proof {
        assert(digits@.reverse() =~= dec_str(n as nat));
    }
    let dlen = digits.len();
    let mut i: usize = dlen;
    proof {
        assert(out@ =~= old(out)@ + digits@.reverse().take(0));
    }
    while i > 0
        invariant
            i <= dlen,
            dlen == digits@.len(),
            digits@.reverse() =~= dec_str(n as nat),
            out@ =~= old(out)@ + digits@.reverse().take((dlen - i) as int),
        decreases i,
    {
        i = i - 1;
        out.push(digits[i]);
        proof {
            let rev = digits@.reverse();
            assert(rev[(dlen - i - 1) as int] == digits@[i as int]);
            assert(old(out)@ + rev.take((dlen - i) as int) =~= (old(out)@ + rev.take(
                (dlen - i - 1) as int,
            )).push(digits@[i as int]));
        }
    }
    proof {
        assert(digits@.reverse().take(dlen as int) =~= digits@.reverse());
    }
}

/// The lowercase hexadecimal digit character for `d`.
fn hex_digit_char(d: u32) -> (c: char)
    requires
        d < 16,
    ensures
        c == hex_digit(d as nat),
{
    if d < 10 { dec_digit_char(d as u64) }
    else if d == 10 { 'a' }
    else if d == 11 { 'b' }
    else if d == 12 { 'c' }
    else if d == 13 { 'd' }
    else if d == 14 { 'e' }
    else { 'f' }
}

proof fn lemma_mask_is_nibble(x: u128)
    ensures
        x & 0xf < 16,
{
    assert(x & 0xf < 16) by (bit_vector);
}

proof fn lemma_hex_nibbles_snoc(u: u128, start: int, len: nat)
    ensures
        hex_nibbles(u, start, len + 1) == hex_nibbles(u, start, len).push(
            hex_digit(nibble(u, start + len)),
        ),
    decreases len,
{
    if len == 0 {
        assert(hex_nibbles(u, start + 1, 0) =~= Seq::<char>::empty());
        assert(hex_nibbles(u, start, 1) =~= hex_nibbles(u, start, 0).push(
            hex_digit(nibble(u, start)),
        ));
    } else {
        lemma_hex_nibbles_snoc(u, start + 1, (len - 1) as nat);
        assert(hex_nibbles(u, start, len + 1) == seq![hex_digit(nibble(u, start))]
            + hex_nibbles(u, start + 1, len));
        assert(hex_nibbles(u, start, len) == seq![hex_digit(nibble(u, start))]
            + hex_nibbles(u, start + 1, (len - 1) as nat));
        assert(seq![hex_digit(nibble(u, start))] + hex_nibbles(u, start + 1, (len - 1) as nat).push(
            hex_digit(nibble(u, start + len)),
        ) =~= (seq![hex_digit(nibble(u, start))] + hex_nibbles(u, start + 1, (len - 1) as nat)).push(
            hex_digit(nibble(u, start + len)),
        ));
    }
}

/// Append the hex digits of nibbles `start .. start + len` of `u`.
fn push_nibbles(out: &mut Vec<char>, u: u128, start: usize, len: usize)
    requires
        start + len <= 32,
    ensures
        final(out)@ == old(out)@ + hex_nibbles(u, start as int, len as nat),
{
    let mut i: usize = 0;
    proof {
        assert(out@ =~= old(out)@ + hex_nibbles(u, start as int, 0));
    }
    while i < len
        invariant
            i <= len,
            start + len <= 32,
            out@ =~= old(out)@ + hex_nibbles(u, start as int, i as nat),
        decreases len - i,
    {
        let k = start + i;
        let sh: u128 = ((31 - k) * 4) as u128;
        let v: u128 = (u >> sh) & 0xf;
        proof {
            lemma_mask_is_nibble(u >> sh);
            assert(v == nibble(u, k as int));
        }
        out.push(hex_digit_char(v as u32));
        proof {
            lemma_hex_nibbles_snoc(u, start as int, i as nat);
        }
        i = i + 1;
    }
}

/// Append the hyphenated rendering of a UUID.
fn push_uuid_chars(out: &mut Vec<char>, u: u128)
    ensures
        final(out)@ == old(out)@ + uuid_str(u),
{
    push_nibbles(out, u, 0, 8);
    out.push('-');
    push_nibbles(out, u, 8, 4);
    out.push('-');
    push_nibbles(out, u, 12, 4);
    out.push('-');
    push_nibbles(out, u, 16, 4);
    out.push('-');
    push_nibbles(out, u, 20, 12);
    proof {
        assert(out@ =~= old(out)@ + uuid_str(u));
    }
}

/// Append one character in its JSON string-literal form.
fn push_esc_char(out: &mut Vec<char>, c: char)
    ensures
        final(out)@ == old(out)@ + esc_char(c),
{
    if c == '"' {
        out.push('\\');
        out.push('"');
    } else if c == '\\' {
        out.push('\\');
        out.push('\\');
    } else if c == '\u{8}' {
        out.push('\\');
        out.push('b');
    } else if c == '\t' {
        out.push('\\');
        out.push('t');
    } else if c == '\n' {
        out.push('\\');
        out.push('n');
    } else if c == '\u{c}' {
        out.push('\\');
        out.push('f');
    } else if c == '\r' {
        out.push('\\');
        out.push('r');
    } else if (c as u32) < 0x20 {
        let code = c as u32;
        out.push('\\');
        out.push('u');
        out.push('0');
        out.push('0');
        out.push(hex_digit_char(code / 16));
        out.push(hex_digit_char(code % 16));
    } else {
        out.push(c);
    }
    proof {
        assert(out@ =~= old(out)@ + esc_char(c));
    }
}

proof fn lemma_escape_snoc(s: Seq<char>, c: char)
    ensures
        json_escape(s.push(c)) == json_escape(s) + esc_char(c),
    decreases s.len(),
{
    if s.len() == 0 {
        assert(s.push(c).skip(1) =~= Seq::<char>::empty());
        assert(s.push(c).first() == c);
        assert(json_escape(Seq::<char>::empty()) =~= Seq::<char>::empty());
        assert(json_escape(s.push(c)) == esc_char(c) + json_escape(Seq::<char>::empty()));
        assert(esc_char(c) + Seq::<char>::empty() =~= esc_char(c));
        assert(Seq::<char>::empty() + esc_char(c) =~= esc_char(c));
        assert(json_escape(s.push(c)) =~= json_escape(s) + esc_char(c));
    } else {
        lemma_escape_snoc(s.skip(1), c);
        assert(s.push(c).skip(1) =~= s.skip(1).push(c));
        assert(s.push(c).first() == s.first());
        assert(json_escape(s.push(c)) == esc_char(s.first()) + json_escape(s.skip(1).push(c)));
        assert(json_escape(s) == esc_char(s.first()) + json_escape(s.skip(1)));
        assert((esc_char(s.first()) + json_escape(s.skip(1))) + esc_char(c) =~= esc_char(s.first())
            + (json_escape(s.skip(1)) + esc_char(c)));
        assert(json_escape(s.push(c)) =~= json_escape(s) + esc_char(c));
    }
}

/// Append the escaped form of `s`.
fn push_escaped_chars(out: &mut Vec<char>, s: &str)
    ensures
        final(out)@ == old(out)@ + json_escape(s@),
{
    let n = s.unicode_len();
    let mut i: usize = 0;
    proof {
        assert(s@.take(0) =~= Seq::<char>::empty());
        assert(out@ =~= old(out)@ + json_escape(s@.take(0)));
    }
    while i < n
        invariant
            n == s@.len(),
            i <= n,
            out@ =~= old(out)@ + json_escape(s@.take(i as int)),
        decreases n - i,
    {
        push_esc_char(out, s.get_char(i));
        proof {
            assert(s@.take(i + 1) =~= s@.take(i as int).push(s@[i as int]));
            lemma_escape_snoc(s@.take(i as int), s@[i as int]);
        }
        i = i + 1;
    }
    proof {
        assert(s@.take(n as int) =~= s@);
    }
}

/// Append the JSON object for a chat body.
fn push_content(out: &mut Vec<char>, c: &ChatContent)
    ensures
        final(out)@ == old(out)@ + json_of_content(*c),
{
    push_str_chars(out, "{\"conversation_id\":\"");
    push_uuid_chars(out, c.conversation_id.0.bits);
    push_str_chars(out, "\",\"content\":\"");
    push_escaped_chars(out, c.content.as_str());
    push_str_chars(out, "\"}");
    proof {
        assert(out@ =~= old(out)@ + json_of_content(*c));
    }
}

/// Encode a client-to-server frame as canonical JSON text.
pub fn encode_client(f: &ClientToServer) -> (r: String)
    ensures
        r@ == json_of_client(*f),
{
    let ClientToServer::Send(m) = f;
    let mut out: Vec<char> = Vec::new();
    push_str_chars(&mut out, "{\"Send\":{\"message_seq\":");
    push_u64_chars(&mut out, m.message_seq);
    push_str_chars(&mut out, ",\"content\":");
    push_content(&mut out, &m.content);
    push_str_chars(&mut out, "}}");
    proof {
        assert(out@ =~= json_of_client(*f));
    }
    chars_to_string(&out)
}

/// Encode a server-to-client frame as canonical JSON text.
pub fn encode_server(f: &ServerToClient) -> (r: String)
    ensures
        r@ == json_of_server(*f),
{
    let mut out: Vec<char> = Vec::new();
    match f {
        ServerToClient::Ack(a) => {
            push_str_chars(&mut out, "{\"ACK\":{\"message_seq\":");
            push_u64_chars(&mut out, a.message_seq);
            push_str_chars(&mut out, "}}");
        },
        ServerToClient::Distribute(d) => {
            push_str_chars(&mut out, "{\"Distribute\":{\"sender\":\"");
            push_uuid_chars(&mut out, d.sender.0.bits);
            push_str_chars(&mut out, "\",\"content\":");
            push_content(&mut out, &d.content);
            push_str_chars(&mut out, "}}");
        },
    }
    proof {
        assert(out@ =~= json_of_server(*f));
    }
    chars_to_string(&out)
}

/// The hyphenated lowercase text of a UUID value.
pub fn uuid_hyphenated(u: UuidValue) -> (r: String)
    ensures
        r@ == uuid_str(u.bits),
{
    let mut out: Vec<char> = Vec::new();
    push_uuid_chars(&mut out, u.bits);
    chars_to_string(&out)
}

/// The exact layout of a canonical `ACK` text: the fixed head, the
/// canonical decimal sequence number, and the two closing braces.
proof fn lemma_ack_text_facts(s: Seq<char>, a: Ack)
    requires
        s == json_of_server(ServerToClient::Ack(a)),
    ensures
        s.len() == "{\"ACK\":{\"message_seq\":"@.len() + dec_str(a.message_seq as nat).len()
            + 2,
        s.subrange(0, "{\"ACK\":{\"message_seq\":"@.len() as int)
            == "{\"ACK\":{\"message_seq\":"@,
        canonical_u64_at(s, "{\"ACK\":{\"message_seq\":"@.len() as int, a.message_seq),
        s.subrange(
            "{\"ACK\":{\"message_seq\":"@.len() + dec_str(a.message_seq as nat).len() as int,
            s.len() as int,
        ) == "}}"@,
{
    reveal_strlit("}}");
    lemma_dec_str_digits(a.message_seq as nat);
    let lit1 = "{\"ACK\":{\"message_seq\":"@;
    let d = dec_str(a.message_seq as nat);
    assert(s.subrange(0, lit1.len() as int) =~= lit1);
    assert(s.subrange(lit1.len() as int, lit1.len() + d.len() as int) =~= d);
    assert(s.subrange(lit1.len() + d.len() as int, s.len() as int) =~= "}}"@);
    assert(s[lit1.len() + d.len() as int] == '}');
    assert('}' as u32 == 125);
    assert(!is_digit(s[lit1.len() + d.len() as int]));
}

/// Decode a server-to-client frame from canonical JSON text.  The
/// result is certified by re-encoding: whenever a frame is returned,
/// the input is exactly its canonical encoding — so a decoded `ACK`
/// really was an `ACK` with that very `message_seq` on the wire.
/// Anything that is not the canonical text of a frame is rejected,
/// and the canonical text of an acknowledgement is never rejected.
pub fn parse_server(s: &str) -> (r: Option<ServerToClient>)
    ensures
        r matches Some(f) ==> s@ == json_of_server(f),
        forall|a: Ack| s@ == json_of_server(ServerToClient::Ack(a)) ==> r == (Some(
            ServerToClient::Ack(a),
        )),
{
    let chars = str_chars(s);
    match parse_server_loose(&chars) {
        None => None,
        Some(f) => {
            let re = encode_server(&f);
            if str_eq_chars(s, re.as_str()) {
                Some(f)
            } else {
                proof {
                    assert forall|a: Ack| s@ != json_of_server(ServerToClient::Ack(a)) by {
                        if s@ == json_of_server(ServerToClient::Ack(a)) {
                            assert(f == ServerToClient::Ack(a));
                        }
                    }
                }
                None
            }
        },
    }
}

/// First reading of a frame, later certified by re-encoding.  A
/// canonical `ACK` text is never rejected.
fn parse_server_loose(v: &Vec<char>) -> (r: Option<ServerToClient>)
    ensures
        forall|a: Ack| v@ == json_of_server(ServerToClient::Ack(a)) ==> r == (Some(
            ServerToClient::Ack(a),
        )),
{
    match lit_at(v, 0, "{\"ACK\":{\"message_seq\":") {
        Some(p) => {
            proof {
                assert forall|a: Ack| v@ == json_of_server(ServerToClient::Ack(a))
                    implies canonical_u64_at(v@, p as int, a.message_seq) by {
                    lemma_ack_text_facts(v@, a);
                }
            }
            match parse_u64_loose(v, p) {
                None => {
                    proof {
                        assert forall|a: Ack| v@ != json_of_server(ServerToClient::Ack(a)) by {
                            if v@ == json_of_server(ServerToClient::Ack(a)) {
                                assert(canonical_u64_at(v@, p as int, a.message_seq));
                            }
                        }
                    }
                    None
                },
                Some((n, p2)) => {
                    let tail = lit_at(v, p2, "}}");
                    let end_ok = match tail {
                        Some(p3) => p3 == v.len(),
                        None => false,
                    };
                    proof {
                        assert forall|a: Ack| v@ == json_of_server(ServerToClient::Ack(a))
                            implies end_ok && n == a.message_seq by {
                            lemma_ack_text_facts(v@, a);
                            assert(canonical_u64_at(v@, p as int, a.message_seq));
                            assert(v@.subrange(p2 as int, p2 + "}}"@.len()) == "}}"@);
                        }
                    }
                    if end_ok {
                        Some(ServerToClient::Ack(Ack { message_seq: n }))
                    } else {
                        None
                    }
                },
            }
        },
        None => {
            proof {
                assert forall|a: Ack| v@ != json_of_server(ServerToClient::Ack(a)) by {
                    if v@ == json_of_server(ServerToClient::Ack(a)) {
                        lemma_ack_text_facts(v@, a);
                    }
                }
            }
            match lit_at(v, 0, "{\"Distribute\":{\"sender\":\"") {
                None => None,
                Some(p) => parse_distribute_loose(v, p),
            }
        },
    }
}

fn parse_distribute_loose(v: &Vec<char>, pos: usize) -> Option<ServerToClient> {
    let (sender, p) = match parse_uuid_loose(v, pos) {
        None => { return None; },
        Some(x) => x,
    };
    let p = match lit_at(v, p, "\",\"content\":{\"conversation_id\":\"") {
        None => { return None; },
        Some(x) => x,
    };
    let (conv, p) = match parse_uuid_loose(v, p) {
        None => { return None; },
        Some(x) => x,
    };
    let p = match lit_at(v, p, "\",\"content\":\"") {
        None => { return None; },
        Some(x) => x,
    };
    let (content, p) = match parse_string_loose(v, p) {
        None => { return None; },
        Some(x) => x,
    };
    let p = match lit_at(v, p, "}}}") {
        None => { return None; },
        Some(x) => x,
    };
    if p != v.len() {
        return None;
    }
    Some(ServerToClient::Distribute(Distribute {
        sender: crate::domain::UserId(UuidValue { bits: sender }),
        content: ChatContent {
            conversation_id: crate::domain::ConversationId(UuidValue { bits: conv }),
            content,
        },
    }))
}

/// The position after `lit` exactly when `v` holds `lit` at `pos`.
fn lit_at(v: &Vec<char>, pos: usize, lit: &str) -> (r: Option<usize>)
    ensures
        r matches Some(end) ==> end == pos + lit@.len() && pos + lit@.len() <= v@.len()
            && v@.subrange(pos as int, pos + lit@.len()) == lit@,
        r is None ==> pos + lit@.len() > v@.len() || v@.subrange(
            pos as int,
            pos + lit@.len(),
        ) != lit@,
{
    let n = lit.unicode_len();
    let vn = v.len();
    if pos > vn || vn - pos < n {
        return None;
    }
    let mut i: usize = 0;
    while i < n
        invariant
            i <= n,
            n == lit@.len(),
            vn == v@.len(),
            pos + n <= vn,
            forall|k: int| 0 <= k < i ==> v@[pos + k] == lit@[k],
        decreases n - i,
    {
        if v[pos + i] != lit.get_char(i) {
            proof {
                assert(v@.subrange(pos as int, pos + lit@.len()) != lit@) by {
                    if v@.subrange(pos as int, pos + lit@.len()) == lit@ {
                        assert(v@.subrange(pos as int, pos + lit@.len())[i as int]
                            == lit@[i as int]);
                    }
                }
            }
            return None;
        }
        i = i + 1;
    }
    proof {
        assert(v@.subrange(pos as int, pos + lit@.len()) =~= lit@);
    }
    Some(pos + n)
}

/// Read a decimal number.  When the text at `pos` is the canonical
/// rendering of some `u64` followed by a non-digit, exactly that
/// number is returned.
fn parse_u64_loose(v: &Vec<char>, pos: usize) -> (r: Option<(u64, usize)>)
    requires
        pos <= v@.len(),
    ensures
        forall|n: u64| #[trigger] canonical_u64_at(v@, pos as int, n) ==> (r matches Some(x)
            && x.0 == n && x.1 == pos + dec_str(n as nat).len()),
{
    let vn = v.len();
    let mut p = pos;
    let mut acc: u64 = 0;
    let mut any = false;
    proof {
        assert(v@.subrange(pos as int, pos as int) =~= Seq::<char>::empty());
    }
    while p < vn && (v[p] as u32) >= 48 && (v[p] as u32) <= 57
        invariant
            vn == v@.len(),
            pos <= p <= vn,
            forall|k: int| pos <= k < p ==> is_digit(#[trigger] v@[k]),
            acc as nat == digits_val(v@.subrange(pos as int, p as int)),
            any == (p > pos),
        decreases vn - p,
    {
        let cu = v[p] as u32;
        let d = (cu - 48) as u64;
        let ghost consumed = v@.subrange(pos as int, p as int);
        proof {
            lemma_no_canonical_overflow(v@, pos as int, p as int, acc);
            assert(v@.subrange(pos as int, p + 1).drop_last() =~= consumed);
            assert(v@.subrange(pos as int, p + 1).last() == v@[p as int]);
        }
        acc = match acc.checked_mul(10) {
            None => { return None; },
            Some(x) => x,
        };
        acc = match acc.checked_add(d) {
            None => { return None; },
            Some(x) => x,
        };
        any = true;
        p = p + 1;
    }
    if any {
        proof {
            assert forall|n: u64| #[trigger] canonical_u64_at(v@, pos as int, n)
                implies acc == n && p == pos + dec_str(n as nat).len() by {
                lemma_dec_str_digits(n as nat);
                let dlen = dec_str(n as nat).len() as int;
                assert(p <= pos + dlen) by {
                    if p > pos + dlen {
                        assert(is_digit(v@[pos + dlen]));
                    }
                }
                assert(p >= pos + dlen) by {
                    if p < pos + dlen {
                        assert(v@[p as int] == v@.subrange(pos as int, pos + dlen)[p - pos]);
                        assert(is_digit(dec_str(n as nat)[p - pos]));
                    }
                }
                assert(v@.subrange(pos as int, p as int) == dec_str(n as nat));
                assert(digits_val(dec_str(n as nat)) == n as nat);
            }
        }
        Some((acc, p))
    } else {
        proof {
            assert forall|n: u64| !canonical_u64_at(v@, pos as int, n) by {
                if canonical_u64_at(v@, pos as int, n) {
                    lemma_dec_str_digits(n as nat);
                    assert(v@[pos as int] == v@.subrange(
                        pos as int,
                        pos + dec_str(n as nat).len(),
                    )[0]);
                    assert(is_digit(dec_str(n as nat)[0]));
                    assert(is_digit(v@[pos as int]));
                }
            }
        }
        None
    }
}

/// When the digits consumed so far sit inside a canonical rendering,
/// the next accumulation step cannot overflow.
proof fn lemma_no_canonical_overflow(s: Seq<char>, pos: int, p: int, acc: u64)
    requires
        0 <= pos <= p < s.len(),
        is_digit(s[p]),
        forall|k: int| pos <= k < p ==> is_digit(#[trigger] s[k]),
        acc as nat == digits_val(s.subrange(pos, p)),
    ensures
        forall|n: u64| #[trigger] canonical_u64_at(s, pos, n) ==> acc * 10 + digit_val(s[p])
            <= u64::MAX,
{
    assert forall|n: u64| #[trigger] canonical_u64_at(s, pos, n) implies acc * 10 + digit_val(
        s[p],
    ) <= u64::MAX by {
        lemma_dec_str_digits(n as nat);
        let d = dec_str(n as nat);
        let dlen = d.len() as int;
        assert(p < pos + dlen) by {
            if p >= pos + dlen {
                assert(!is_digit(s[pos + dlen]) || pos + dlen == s.len());
                if pos + dlen == s.len() {
                } else {
                    if p == pos + dlen {
                        assert(is_digit(s[p]));
                    } else {
                        assert(is_digit(s[pos + dlen]));
                    }
                }
            }
        }
        assert(s.subrange(pos, p + 1) =~= d.take(p + 1 - pos)) by {
            assert forall|k: int| 0 <= k < p + 1 - pos implies #[trigger] s.subrange(
                pos,
                p + 1,
            )[k] == d.take(p + 1 - pos)[k] by {
                assert(d[k] == s.subrange(pos, pos + dlen)[k]);
            }
        }
        assert(s.subrange(pos, p) =~= d.take(p - pos)) by {
            assert forall|k: int| 0 <= k < p - pos implies #[trigger] s.subrange(pos, p)[k]
                == d.take(p - pos)[k] by {
                assert(d[k] == s.subrange(pos, pos + dlen)[k]);
            }
        }
        lemma_digits_val_prefix_le(d, p + 1 - pos);
        assert(d.take(p + 1 - pos).drop_last() =~= d.take(p - pos));
        assert(digits_val(d.take(p + 1 - pos)) == digits_val(d.take(p - pos)) * 10 + digit_val(
            d.take(p + 1 - pos).last(),
        ));
        assert(d.take(p + 1 - pos).last() == s[p]);
        assert(digits_val(d) == n as nat);
    }
}

fn hex_val_loose(c: char) -> (r: Option<u32>)
    ensures
        r matches Some(d) ==> d < 16,
{
    let cu = c as u32;
    if cu >= 48 && cu <= 57 {
        Some(cu - 48)
    } else if cu >= 97 && cu <= 102 {
        Some(cu - 87)
    } else {
        None
    }
}

fn parse_uuid_loose(v: &Vec<char>, pos: usize) -> Option<(u128, usize)> {
    let vn = v.len();
    if pos > vn || vn - pos < 36 {
        return None;
    }
    let mut acc: u128 = 0;
    let mut i: usize = 0;
    while i < 36
        invariant
            i <= 36,
            vn == v@.len(),
            pos + 36 <= vn,
        decreases 36 - i,
    {
        let c = v[pos + i];
        if i == 8 || i == 13 || i == 18 || i == 23 {
            if c != '-' {
                return None;
            }
        } else {
            let d = match hex_val_loose(c) {
                None => { return None; },
                Some(x) => x,
            };
            acc = (acc << 4) | (d as u128);
        }
        i = i + 1;
    }
    Some((acc, pos + 36))
}

/// Read a JSON string body up to its closing quote, undoing the
/// canonical escapes.
fn parse_string_loose(v: &Vec<char>, pos: usize) -> Option<(String, usize)> {
    let mut out: Vec<char> = Vec::new();
    let mut p = pos;
    while p < v.len()
        invariant
            pos <= p,
        decreases v@.len() - p,
    {
        let c = v[p];
        if c == '"' {
            return Some((chars_to_string(&out), p + 1));
        }
        if c == '\\' {
            if v.len() - p < 2 {
                return None;
            }
            let e = v[p + 1];
            if e == 'u' {
                if v.len() - p < 6 {
                    return None;
                }
                let h1 = match hex_val_loose(v[p + 2]) {
                    None => { return None; },
                    Some(x) => x,
                };
                let h2 = match hex_val_loose(v[p + 3]) {
                    None => { return None; },
                    Some(x) => x,
                };
                let h3 = match hex_val_loose(v[p + 4]) {
                    None => { return None; },
                    Some(x) => x,
                };
                let h4 = match hex_val_loose(v[p + 5]) {
                    None => { return None; },
                    Some(x) => x,
                };
                let code = h1 * 4096 + h2 * 256 + h3 * 16 + h4;
                if code >= 0x20 {
                    // only control characters travel as \u escapes
                    return None;
                }
                out.push((code as u8) as char);
                p = p + 6;
            } else {
                if e == '"' {
                    out.push('"');
                } else if e == '\\' {
                    out.push('\\');
                } else if e == 'b' {
                    out.push('\u{8}');
                } else if e == 't' {
                    out.push('\t');
                } else if e == 'n' {
                    out.push('\n');
                } else if e == 'f' {
                    out.push('\u{c}');
                } else if e == 'r' {
                    out.push('\r');
                } else {
                    return None;
                }
                p = p + 2;
            }
        } else {
            out.push(c);
            p = p + 1;
        }
    }
    None
}

} // verus!
