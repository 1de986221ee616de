//! The textual form of the message log: a JSON array of objects with the
//! fields `id`, `author` and `message`, in that order, oldest message first.
//!
//! The spec functions here state the encoding character by character; the two
//! trusted wrappers at the bottom obtain the escaped pieces from `serde_json`.
use vstd::prelude::*;
use crate::message::message::MessageView;

verus! {

/// The decimal digit `d` as a character, for `d <= 9`.
pub open spec fn dec_digit_char(d: nat) -> char {
    if d == 0 {
        '0'
    } else if d == 1 {
        '1'
    } else if d == 2 {
        '2'
    } else if d == 3 {
        '3'
    } else if d == 4 {
        '4'
    } else if d == 5 {
        '5'
    } else if d == 6 {
        '6'
    } else if d == 7 {
        '7'
    } else if d == 8 {
        '8'
    } else {
        '9'
    }
}

/// The hexadecimal digit `d` as a lowercase character, for `d <= 15`.
pub open spec fn hex_digit_char(d: nat) -> char {
    if d < 10 {
        dec_digit_char(d)
    } else if d == 10 {
        'a'
    } else if d == 11 {
        'b'
    } else if d == 12 {
        'c'
    } else if d == 13 {
        'd'
    } else if d == 14 {
        'e'
    } else {
        'f'
    }
}

/// The decimal digits of `n`, most significant first, with no sign and no
/// leading zeros (`0` is written as one digit).
pub open spec fn dec_digits(n: nat) -> Seq<char>
    decreases n,
{
    if n < 10 {
        seq![dec_digit_char(n)]
    } else {
        dec_digits(n / 10) + seq![dec_digit_char(n % 10)]
    }
}

/// How one character appears inside a JSON string: `"` and `\` get a
/// backslash, the named control characters get their short escape, the other
/// control characters get a `\u00..` escape, and everything else stands as
/// itself.
pub open spec fn esc_char(c: char) -> Seq<char> {
    if c == '"' {
        seq!['\\', '"']
    } else if c == '\\' {
        seq!['\\', '\\']
    } else if c == '\u{08}' {
        seq!['\\', 'b']
    } else if c == '\t' {
        seq!['\\', 't']
    } else if c == '\n' {
        seq!['\\', 'n']
    } else if c == '\u{0c}' {
        seq!['\\', 'f']
    } else if c == '\r' {
        seq!['\\', 'r']
    } else if (c as u32) < 0x20 {
        seq![
            '\\',
            'u',
            '0',
            '0',
            hex_digit_char(((c as u32) / 16) as nat),
            hex_digit_char(((c as u32) % 16) as nat),
        ]
    } else {
        seq![c]
    }
}

/// Every character of `s` escaped as `esc_char` says, in order.
pub open spec fn escape_chars(s: Seq<char>) -> Seq<char>
    decreases s.len(),
{
    if s.len() == 0 {
        Seq::<char>::empty()
    } else {
        esc_char(s[0]) + escape_chars(s.drop_first())
    }
}

/// The JSON string literal for the text `s`: the escaped characters between
/// double quotes.
pub open spec fn json_quote(s: Seq<char>) -> Seq<char> {
    seq!['"'] + escape_chars(s) + seq!['"']
}

/// The JSON object for one record, with the fields in the order
/// `id`, `author`, `message`.
pub open spec fn json_of_record(m: MessageView) -> Seq<char> {
    "{\"id\":"@ + dec_digits(m.id as nat) + ",\"author\":"@ + json_quote(m.author)
        + ",\"message\":"@ + json_quote(m.message) + "}"@
}

/// The comma-separated objects of the records of `rs`, oldest first, without
/// the surrounding brackets.
pub open spec fn json_records_body(rs: Seq<MessageView>) -> Seq<char>
    decreases rs.len(),
{
    if rs.len() == 0 {
        Seq::<char>::empty()
    } else if rs.len() == 1 {
        json_of_record(rs[0])
    } else {
        json_records_body(rs.drop_last()) + ","@ + json_of_record(rs.last())
    }
}

/// The JSON array of the records of `rs`, oldest first.
pub open spec fn json_of_records(rs: Seq<MessageView>) -> Seq<char> {
    "["@ + json_records_body(rs) + "]"@
}

/// The number of bytes of the UTF-8 encoding of `s`.
pub open spec fn byte_len(s: Seq<char>) -> nat {
    vstd::utf8::encode_utf8(s).len()
}

/// The value of one lowercase hexadecimal digit character.
pub open spec fn hex_val(c: char) -> Option<nat> {
    if c == '0' {
        Some(0nat)
    } else if c == '1' {
        Some(1nat)
    } else if c == '2' {
        Some(2nat)
    } else if c == '3' {
        Some(3nat)
    } else if c == '4' {
        Some(4nat)
    } else if c == '5' {
        Some(5nat)
    } else if c == '6' {
        Some(6nat)
    } else if c == '7' {
        Some(7nat)
    } else if c == '8' {
        Some(8nat)
    } else if c == '9' {
        Some(9nat)
    } else if c == 'a' {
        Some(10nat)
    } else if c == 'b' {
        Some(11nat)
    } else if c == 'c' {
        Some(12nat)
    } else if c == 'd' {
        Some(13nat)
    } else if c == 'e' {
        Some(14nat)
    } else if c == 'f' {
        Some(15nat)
    } else {
        None
    }
}

/// Reads one character off the front of escaped text: the character it stands
/// for and how many characters of the escaped text it took.
pub open spec fn unesc_first(s: Seq<char>) -> Option<(char, int)> {
    if s.len() == 0 {
        None
    } else if s[0] != '\\' {
        Some((s[0], 1int))
    } else if s.len() >= 2 && s[1] == '"' {
        Some(('"', 2int))
    } else if s.len() >= 2 && s[1] == '\\' {
        Some(('\\', 2int))
    } else if s.len() >= 2 && s[1] == 'b' {
        Some(('\u{08}', 2int))
    } else if s.len() >= 2 && s[1] == 't' {
        Some(('\t', 2int))
    } else if s.len() >= 2 && s[1] == 'n' {
        Some(('\n', 2int))
    } else if s.len() >= 2 && s[1] == 'f' {
        Some(('\u{0c}', 2int))
    } else if s.len() >= 2 && s[1] == 'r' {
        Some(('\r', 2int))
    } else if s.len() >= 6 && s[1] == 'u' && s[2] == '0' && s[3] == '0' && hex_val(s[4]) is Some
        && hex_val(s[5]) is Some {
        Some((((16 * hex_val(s[4])->0 + hex_val(s[5])->0) as u32) as char, 6int))
    } else {
        None
    }
}

/// Escaping one character reads back as that character, whatever follows it.
proof fn lemma_unesc_first_esc_char(c: char, tail: Seq<char>)
    ensures
        unesc_first(esc_char(c) + tail) == Some((c, esc_char(c).len() as int)),
{
    let s = esc_char(c) + tail;
    if c == '"' || c == '\\' || c == '\u{08}' || c == '\t' || c == '\n' || c == '\u{0c}' || c
        == '\r' {
        assert(s[0] == '\\' && s[1] == esc_char(c)[1]);
    } else if (c as u32) < 0x20 {
        assert(s[0] == '\\' && s[1] == 'u' && s[2] == '0' && s[3] == '0');
        assert(s[4] == hex_digit_char(((c as u32) / 16) as nat));
        assert(s[5] == hex_digit_char(((c as u32) % 16) as nat));
        assert(hex_val(s[4]) == Some(((c as u32) / 16) as nat));
        assert(hex_val(s[5]) == Some(((c as u32) % 16) as nat));
        assert(16 * ((c as u32) / 16) as nat + ((c as u32) % 16) as nat == c as u32);
    } else {
        assert(s[0] == c && c != '\\');
    }
}

/// The value of one decimal digit character.
pub open spec fn dec_val(c: char) -> Option<nat> {
    match hex_val(c) {
        Some(d) => if d < 10 {
            Some(d)
        } else {
            None
        },
        None => None,
    }
}

/// Whether the character is a decimal digit.
pub open spec fn is_digit(c: char) -> bool {
    dec_val(c) is Some
}

/// How many decimal digits stand at the front of `s`.
pub open spec fn take_digits(s: Seq<char>) -> int
    decreases s.len(),
{
    if s.len() == 0 || !is_digit(s[0]) {
        0
    } else {
        1 + take_digits(s.drop_first())
    }
}

/// The value of a run of decimal digits, most significant first.
pub open spec fn digits_val(s: Seq<char>) -> Option<nat>
    decreases s.len(),
{
    if s.len() == 0 {
        None
    } else if s.len() == 1 {
        dec_val(s[0])
    } else {
        match (digits_val(s.drop_last()), dec_val(s.last())) {
            (Some(h), Some(l)) => Some(10 * h + l),
            _ => None,
        }
    }
}

/// Reads the decimal number at the front of `s`: its value and the text
/// after it.
pub open spec fn parse_number(s: Seq<char>) -> Option<(nat, Seq<char>)> {
    let k = take_digits(s);
    if k == 0 || k > s.len() {
        None
    } else {
        match digits_val(s.subrange(0, k)) {
            Some(v) => Some((v, s.subrange(k, s.len() as int))),
            None => None,
        }
    }
}

/// Reads a JSON string body up to and including its closing quote: the text
/// the body stands for and the text after the closing quote.
pub open spec fn parse_string_body(s: Seq<char>) -> Option<(Seq<char>, Seq<char>)>
    decreases s.len(),
{
    if s.len() == 0 {
        None
    } else if s[0] == '"' {
        Some((Seq::<char>::empty(), s.drop_first()))
    } else {
        match unesc_first(s) {
            None => None,
            Some((c, k)) => if 0 < k <= s.len() {
                match parse_string_body(s.subrange(k, s.len() as int)) {
                    None => None,
                    Some((t, r)) => Some((seq![c] + t, r)),
                }
            } else {
                None
            },
        }
    }
}

/// String round trip: an escaped text, its closing quote and whatever
/// follows read back as exactly the text, leaving what follows.
proof fn lemma_parse_string_body_round_trip(x: Seq<char>, rest: Seq<char>)
    ensures
        parse_string_body(escape_chars(x) + seq!['"'] + rest) == Some((x, rest)),
    decreases x.len(),
{
    let s = escape_chars(x) + seq!['"'] + rest;
    if x.len() == 0 {
        assert(s =~= seq!['"'] + rest);
        assert((seq!['"'] + rest).drop_first() =~= rest);
    } else {
        let e = esc_char(x[0]);
        let tail = escape_chars(x.drop_first()) + seq!['"'] + rest;
        assert(s =~= e + tail);
        lemma_unesc_first_esc_char(x[0], tail);
        assert((e + tail).subrange(e.len() as int, (e + tail).len() as int) =~= tail);
        lemma_parse_string_body_round_trip(x.drop_first(), rest);
        assert(seq![x[0]] + x.drop_first() =~= x);
    }
}

/// Every character `dec_digits` writes is a decimal digit.
proof fn lemma_dec_digits_are_digits(n: nat)
    ensures
        dec_digits(n).len() >= 1,
        forall|i: int| 0 <= i < dec_digits(n).len() ==> is_digit(#[trigger] dec_digits(n)[i]),
    decreases n,
{
    if n >= 10 {
        lemma_dec_digits_are_digits(n / 10);
    }
}

/// A run of digits followed by a non-digit is scanned to exactly its length.
proof fn lemma_take_digits_append(a: Seq<char>, b: Seq<char>)
    requires
        forall|i: int| 0 <= i < a.len() ==> is_digit(#[trigger] a[i]),
        b.len() > 0 ==> !is_digit(b[0]),
    ensures
        take_digits(a + b) == a.len(),
    decreases a.len(),
{
    if a.len() == 0 {
        assert(a + b =~= b);
    } else {
        assert((a + b).drop_first() =~= a.drop_first() + b);
        lemma_take_digits_append(a.drop_first(), b);
    }
}

/// The digits of a number read back as its value.
proof fn lemma_digits_val_dec_digits(n: nat)
    ensures
        digits_val(dec_digits(n)) == Some(n),
    decreases n,
{
    if n >= 10 {
        lemma_digits_val_dec_digits(n / 10);
        assert(dec_digits(n).drop_last() =~= dec_digits(n / 10));
    }
}

/// Number round trip: the decimal text written for `n`, followed by anything
/// that is not a digit, reads back as `n`, leaving what follows.
proof fn lemma_parse_number_round_trip(n: nat, rest: Seq<char>)
    requires
        rest.len() > 0 ==> !is_digit(rest[0]),
    ensures
        parse_number(dec_digits(n) + rest) == Some((n, rest)),
{
    lemma_dec_digits_are_digits(n);
    lemma_take_digits_append(dec_digits(n), rest);
    lemma_digits_val_dec_digits(n);
    let s = dec_digits(n) + rest;
    assert(s.subrange(0, dec_digits(n).len() as int) =~= dec_digits(n));
    assert(s.subrange(dec_digits(n).len() as int, s.len() as int) =~= rest);
}

/// Whether `s` begins with `p`.
pub open spec fn starts_with(s: Seq<char>, p: Seq<char>) -> bool {
    p.len() <= s.len() && s.subrange(0, p.len() as int) == p
}

/// Reads the fixed text `p` off the front of `s`, leaving the rest.
pub open spec fn expect(s: Seq<char>, p: Seq<char>) -> Option<Seq<char>> {
    if starts_with(s, p) {
        Some(s.subrange(p.len() as int, s.len() as int))
    } else {
        None
    }
}

/// Reading the fixed text off a text that begins with it leaves the rest.
proof fn lemma_expect(p: Seq<char>, rest: Seq<char>)
    ensures
        expect(p + rest, p) == Some(rest),
{
    let s = p + rest;
    assert(s.subrange(0, p.len() as int) =~= p);
    assert(s.subrange(p.len() as int, s.len() as int) =~= rest);
}

/// The opening of a record object, up to the value of `id`.
pub open spec fn key_id() -> Seq<char> {
    seq!['{', '"', 'i', 'd', '"', ':']
}

/// The `author` key between the `id` value and the opening quote of the
/// author text.
pub open spec fn key_author() -> Seq<char> {
    seq![',', '"', 'a', 'u', 't', 'h', 'o', 'r', '"', ':', '"']
}

/// The `message` key between the author text and the opening quote of the
/// message text.
pub open spec fn key_message() -> Seq<char> {
    seq![',', '"', 'm', 'e', 's', 's', 'a', 'g', 'e', '"', ':', '"']
}

/// Reads one record object off the front of `s`: the record and the text
/// after its closing brace.
pub open spec fn parse_record(s: Seq<char>) -> Option<(MessageView, Seq<char>)> {
    match expect(s, key_id()) {
        None => None,
        Some(s1) => match parse_number(s1) {
            None => None,
            Some((idv, s2)) => if idv > u32::MAX as nat {
                None
            } else {
                match expect(s2, key_author()) {
                    None => None,
                    Some(s3) => match parse_string_body(s3) {
                        None => None,
                        Some((author, s4)) => match expect(s4, key_message()) {
                            None => None,
                            Some(s5) => match parse_string_body(s5) {
                                None => None,
                                Some((message, s6)) => match expect(s6, seq!['}']) {
                                    None => None,
                                    Some(s7) => Some(
                                        (
                                            MessageView { id: idv as u32, author, message },
                                            s7,
                                        ),
                                    ),
                                },
                            },
                        },
                    },
                }
            },
        },
    }
}

/// Record round trip: the object written for a record, whatever follows it,
/// reads back as that record, leaving what follows.
#[verifier::rlimit(100)]
#[verifier::spinoff_prover]
proof fn lemma_parse_record_round_trip(m: MessageView, rest: Seq<char>)
    ensures
        parse_record(json_of_record(m) + rest) == Some((m, rest)),
{
    reveal_strlit("{\"id\":");
    reveal_strlit(",\"author\":");
    reveal_strlit(",\"message\":");
    reveal_strlit("}");
    let s = json_of_record(m) + rest;
    let digits = dec_digits(m.id as nat);
    let ea = escape_chars(m.author);
    let em = escape_chars(m.message);
    let r1 = digits + (key_author() + (ea + (seq!['"'] + (key_message() + (em + (seq!['"'] + (
    seq!['}'] + rest)))))));
    assert(s =~= key_id() + r1);
    lemma_expect(key_id(), r1);
    let r2 = key_author() + (ea + (seq!['"'] + (key_message() + (em + (seq!['"'] + (seq!['}']
        + rest))))));
    assert(!is_digit(r2[0]));
    lemma_parse_number_round_trip(m.id as nat, r2);
    let r3 = ea + (seq!['"'] + (key_message() + (em + (seq!['"'] + (seq!['}'] + rest)))));
    lemma_expect(key_author(), r3);
    let r4 = key_message() + (em + (seq!['"'] + (seq!['}'] + rest)));
    assert(r3 =~= ea + seq!['"'] + r4);
    lemma_parse_string_body_round_trip(m.author, r4);
    let r5 = em + (seq!['"'] + (seq!['}'] + rest));
    lemma_expect(key_message(), r5);
    assert(r5 =~= em + seq!['"'] + (seq!['}'] + rest));
    lemma_parse_string_body_round_trip(m.message, seq!['}'] + rest);
    lemma_expect(seq!['}'], rest);
    assert(m.id as nat <= u32::MAX as nat);
    assert((m.id as nat) as u32 == m.id);
}

/// Reads a run of record objects separated by commas: the records and the
/// text after the last one.
pub open spec fn parse_records_body(s: Seq<char>) -> Option<(Seq<MessageView>, Seq<char>)>
    decreases s.len(),
{
    match parse_record(s) {
        None => None,
        Some((m, r)) => if r.len() < s.len() {
            if r.len() > 0 && r[0] == ',' {
                match parse_records_body(r.drop_first()) {
                    None => None,
                    Some((ms, r2)) => Some((seq![m] + ms, r2)),
                }
            } else {
                Some((seq![m], r))
            }
        } else {
            None
        },
    }
}

/// Reads a whole snapshot: the records of the JSON array, oldest first.
pub open spec fn parse_snapshot(s: Seq<char>) -> Option<Seq<MessageView>> {
    match expect(s, seq!['[']) {
        None => None,
        Some(s1) => if s1 == seq![']'] {
            Some(Seq::<MessageView>::empty())
        } else {
            match parse_records_body(s1) {
                None => None,
                Some((ms, r)) => if r == seq![']'] {
                    Some(ms)
                } else {
                    None
                },
            }
        },
    }
}

/// The record list's text, decomposed at the front rather than at the back:
/// the first record's object, then a comma and the remaining records' text.
proof fn lemma_records_body_front(rs: Seq<MessageView>)
    requires
        rs.len() >= 1,
    ensures
        json_records_body(rs) == json_of_record(rs[0]) + (if rs.len() == 1 {
            Seq::<char>::empty()
        } else {
            ","@ + json_records_body(rs.drop_first())
        }),
    decreases rs.len(),
{
    if rs.len() == 1 {
        assert(json_records_body(rs) =~= json_of_record(rs[0]) + Seq::<char>::empty());
    } else {
        lemma_records_body_front(rs.drop_last());
        assert(rs.drop_last()[0] == rs[0]);
        if rs.len() == 2 {
            assert(rs.drop_first()[0] == rs[1]);
            assert(json_records_body(rs) =~= json_of_record(rs[0]) + (","@
                + json_records_body(rs.drop_first())));
        } else {
            assert(rs.drop_last().drop_first() =~= rs.drop_first().drop_last());
            assert(rs.drop_first().last() == rs.last());
            assert(json_records_body(rs) =~= json_of_record(rs[0]) + (","@
                + json_records_body(rs.drop_first())));
        }
    }
}

/// Every record object is at least as long as its opening key.
proof fn lemma_record_text_nonempty(m: MessageView)
    ensures
        json_of_record(m).len() >= 6,
{
    reveal_strlit("{\"id\":");
}

/// Record list round trip: the records' text, followed by anything that does
/// not begin with a comma, reads back as exactly those records.
#[verifier::rlimit(100)]
#[verifier::spinoff_prover]
proof fn lemma_parse_records_body_round_trip(rs: Seq<MessageView>, rest: Seq<char>)
    requires
        rs.len() >= 1,
        rest.len() > 0 ==> rest[0] != ',',
    ensures
        parse_records_body(json_records_body(rs) + rest) == Some((rs, rest)),
    decreases rs.len(),
{
    reveal_strlit(",");
    lemma_records_body_front(rs);
    lemma_record_text_nonempty(rs[0]);
    let rec0 = json_of_record(rs[0]);
    if rs.len() == 1 {
        assert(json_records_body(rs) + rest =~= rec0 + rest);
        lemma_parse_record_round_trip(rs[0], rest);
        assert(seq![rs[0]] =~= rs);
    } else {
        let tail = ","@ + json_records_body(rs.drop_first());
        assert(json_records_body(rs) + rest =~= rec0 + (tail + rest));
        lemma_parse_record_round_trip(rs[0], tail + rest);
        assert((tail + rest)[0] == ',');
        assert((tail + rest).drop_first() =~= json_records_body(rs.drop_first()) + rest);
        lemma_parse_records_body_round_trip(rs.drop_first(), rest);
        assert(seq![rs[0]] + rs.drop_first() =~= rs);
    }
}

/// Snapshot round trip: the serialization of any record list reads back as
/// exactly that list, so the cached snapshot deserializes to the log it was
/// written from.
#[verifier::rlimit(100)]
#[verifier::spinoff_prover]
pub proof fn lemma_parse_snapshot_round_trip(rs: Seq<MessageView>)
    ensures
        parse_snapshot(json_of_records(rs)) == Some(rs),
{
    reveal_strlit("[");
    reveal_strlit("]");
    let s = json_of_records(rs);
    let inner = json_records_body(rs) + seq![']'];
    assert(s =~= seq!['['] + inner);
    lemma_expect(seq!['['], inner);
    if rs.len() == 0 {
        assert(inner =~= seq![']']);
    } else {
        lemma_records_body_front(rs);
        lemma_record_text_nonempty(rs[0]);
        assert(json_records_body(rs).len() >= 6);
        assert(inner.len() != 1);
        assert(inner != seq![']']);
        lemma_parse_records_body_round_trip(rs, seq![']']);
    }
}

/// Relies on `serde_json::to_string` for `&str`: it wraps the text in double
/// quotes and escapes `"`, `\` and the control characters exactly as
/// `esc_char` states; encoding a string slice never fails.
#[verifier::external_body]
pub(crate) fn json_escape(s: &str) -> (r: String)
    ensures
        r@ == json_quote(s@),
{
    serde_json::to_string(s).unwrap_or(String::new())
}

/// Relies on `serde_json::to_string` for `u32`: the decimal digits of the
/// number, without sign or leading zeros; encoding an integer never fails.
#[verifier::external_body]
pub(crate) fn json_u32(n: u32) -> (r: String)
    ensures
        r@ == dec_digits(n as nat),
{
    serde_json::to_string(&n).unwrap_or(String::new())
}

} // verus!
