use vstd::prelude::*;
use vstd::string::is_ascii_spec_bytes;
use vstd::utf8::encode_utf8;
use crate::user::{User, UserView};

verus! {

broadcast use is_ascii_spec_bytes;

/// The bytes of an ASCII character sequence, one byte per character.
pub open spec fn ascii_bytes(s: Seq<char>) -> Seq<u8> {
    s.map_values(|c: char| c as u8)
}

/// The ASCII digit for a hex value below 16, lower case.
pub open spec fn hex_digit(n: int) -> u8 {
    if n < 10 {
        (0x30 + n) as u8
    } else {
        (0x57 + n) as u8
    }
}

/// One byte of JSON string content, escaped: quote and backslash get a
/// preceding backslash, control bytes become a `\u00XX` escape, and every
/// other byte passes through unchanged. Bytes of a multi-byte UTF-8
/// sequence all lie above 0x7F, so they pass through and the encoding of
/// the characters is preserved.
pub open spec fn escape_byte(b: u8) -> Seq<u8> {
    if b == 0x22 {
        seq![0x5Cu8, 0x22u8]
    } else if b == 0x5C {
        seq![0x5Cu8, 0x5Cu8]
    } else if b < 0x20 {
        seq![0x5Cu8, 0x75u8, 0x30u8, 0x30u8, hex_digit(b as int / 16), hex_digit(b as int % 16)]
    } else {
        seq![b]
    }
}

/// The body of a JSON string literal: every byte of `s` escaped.
pub open spec fn escaped(s: Seq<u8>) -> Seq<u8>
    decreases s.len(),
{
    if s.len() == 0 {
        Seq::empty()
    } else {
        escape_byte(s[0]) + escaped(s.drop_first())
    }
}

/// The decimal digits of a nonnegative integer, most significant first.
pub open spec fn dec_digits(n: int) -> Seq<u8>
    recommends
        n >= 0,
    decreases n,
{
    if n < 10 {
        seq![(0x30 + n) as u8]
    } else {
        dec_digits(n / 10) + seq![(0x30 + n % 10) as u8]
    }
}

/// The JSON text of an integer: a minus sign for a negative value, then
/// the decimal digits of the magnitude.
pub open spec fn dec_int(n: int) -> Seq<u8> {
    if n < 0 {
        seq![0x2Du8] + dec_digits(-n)
    } else {
        dec_digits(n)
    }
}

/// The JSON text of a user record: an object with the fields id, name,
/// email and address, in declaration order; a missing address is `null`.
pub open spec fn json_user(u: UserView) -> Seq<u8> {
    ascii_bytes("{\"id\":"@) + dec_int(u.id) + ascii_bytes(",\"name\":\""@) + escaped(
        encode_utf8(u.name),
    ) + ascii_bytes("\",\"email\":\""@) + escaped(encode_utf8(u.email)) + ascii_bytes(
        "\",\"address\":"@,
    ) + (match u.address {
        Some(a) => ascii_bytes("\""@) + escaped(encode_utf8(a)) + ascii_bytes("\""@),
        None => ascii_bytes("null"@),
    }) + ascii_bytes("}"@)
}

/// The JSON texts of the records, joined with commas.
pub open spec fn json_users_body(s: Seq<UserView>) -> Seq<u8>
    decreases s.len(),
{
    if s.len() == 0 {
        Seq::empty()
    } else if s.len() == 1 {
        json_user(s[0])
    } else {
        json_users_body(s.drop_last()) + ascii_bytes(","@) + json_user(s.last())
    }
}

/// The JSON text of a sequence of user records: an array of their objects.
pub open spec fn json_users(s: Seq<UserView>) -> Seq<u8> {
    ascii_bytes("["@) + json_users_body(s) + ascii_bytes("]"@)
}

/// The JSON text of a mutation confirmation: `{"rows_affected":<n>}`.
pub open spec fn json_rows_affected(n: int) -> Seq<u8> {
    ascii_bytes("{\"rows_affected\":"@) + dec_int(n) + ascii_bytes("}"@)
}

/// The JSON text of an error report: `{"error":"<message>"}`.
pub open spec fn json_error(msg: Seq<char>) -> Seq<u8> {
    ascii_bytes("{\"error\":\""@) + escaped(encode_utf8(msg)) + ascii_bytes("\"}"@)
}

/// Appends an ASCII fragment to `out`, one byte per character.
fn push_ascii(out: &mut Vec<u8>, s: &str)
    requires
        s.is_ascii(),
    ensures
        final(out)@ == old(out)@ + ascii_bytes(s@),
{
    let mut bytes = s.as_bytes_vec();
    proof {
        assert(bytes@ =~= ascii_bytes(s@));
    }
    out.append(&mut bytes);
}

/// Appends the decimal digits of `n` to `out`.
fn push_dec_u64(out: &mut Vec<u8>, n: u64)
    ensures
        final(out)@ == old(out)@ + dec_digits(n as int),
    decreases n,
{
    if n < 10 {
        out.push(0x30 + n as u8);
        proof {
            assert(out@ =~= old(out)@ + dec_digits(n as int));
        }
    } else {
        push_dec_u64(out, n / 10);
        out.push(0x30 + (n % 10) as u8);
        proof {
            assert(out@ =~= old(out)@ + dec_digits(n as int));
        }
    }
}

/// Appends the JSON text of `n` to `out`: a minus sign when `n` is
/// negative, then the decimal digits of the magnitude.
fn push_dec_i64(out: &mut Vec<u8>, n: i64)
    ensures
        final(out)@ == old(out)@ + dec_int(n as int),
{
    if n < 0 {
        out.push(0x2D);
        let m: u64 = ((-(n + 1)) as u64) + 1;
        assert(m as int == -(n as int));
        push_dec_u64(out, m);
        proof {
            assert(out@ =~= old(out)@ + dec_int(n as int));
        }
    } else {
        push_dec_u64(out, n as u64);
    }
}

/// `escaped` applied to one more byte extends the escaped text by that
/// byte's escape.
proof fn lemma_escaped_push(s: Seq<u8>, b: u8)
    ensures
        escaped(s.push(b)) == escaped(s) + escape_byte(b),
    decreases s.len(),
{
    if s.len() == 0 {
        assert(s.push(b)[0] == b);
        assert(s.push(b).drop_first() =~= Seq::<u8>::empty());
        assert(escaped(s.push(b).drop_first()) == Seq::<u8>::empty());
        assert(escaped(s.push(b)) == escape_byte(b) + escaped(s.push(b).drop_first()));
        assert(escaped(s.push(b)) =~= escaped(s) + escape_byte(b));
    } else {
        assert(s.push(b).drop_first() =~= s.drop_first().push(b));
        lemma_escaped_push(s.drop_first(), b);
        assert(s.push(b)[0] == s[0]);
        assert(escaped(s.push(b)) =~= escaped(s) + escape_byte(b));
    }
}

/// Appends the escaped form of every byte of `s` to `out`.
fn push_escaped(out: &mut Vec<u8>, s: &Vec<u8>)
    ensures
        final(out)@ == old(out)@ + escaped(s@),
{
    let n = s.len();
    let mut i: usize = 0;
    while i < n
        invariant
            n == s@.len(),
            i <= n,
            out@ == old(out)@ + escaped(s@.take(i as int)),
        decreases n - i,
    {
        let b = s[i];
        if b == 0x22 {
            out.push(0x5C);
            out.push(0x22);
        } else if b == 0x5C {
            out.push(0x5C);
            out.push(0x5C);
        } else if b < 0x20 {
            out.push(0x5C);
            out.push(0x75);
            out.push(0x30);
            out.push(0x30);
            out.push(if b / 16 < 10 {
                0x30 + b / 16
            } else {
                0x57 + b / 16
            });
            out.push(if b % 16 < 10 {
                0x30 + b % 16
            } else {
                0x57 + b % 16
            });
        } else {
            out.push(b);
        }
        proof {
            lemma_escaped_push(s@.take(i as int), s@[i as int]);
            assert(s@.take(i as int + 1) =~= s@.take(i as int).push(s@[i as int]));
            assert(out@ =~= old(out)@ + escaped(s@.take(i as int + 1)));
        }
        i += 1;
    }
    proof {
        assert(s@.take(n as int) =~= s@);
    }
}

/// Appends a JSON string literal — opening quote, escaped text of `s`,
/// closing quote — to `out`.
fn push_json_string(out: &mut Vec<u8>, s: &str)
    ensures
        final(out)@ == old(out)@ + ascii_bytes("\""@) + escaped(encode_utf8(s@)) + ascii_bytes(
            "\""@,
        ),
{
    proof {
        reveal_strlit("\"");
        assert("\"".is_ascii());
    }
    push_ascii(out, "\"");
    let bytes = s.as_bytes_vec();
    push_escaped(out, &bytes);
    push_ascii(out, "\"");
}

/// Serializes one user record as `{"id":..,"name":"..","email":"..",
/// "address":..}`.
pub fn user_to_json(u: &User) -> (r: Vec<u8>)
    ensures
        r@ == json_user(u@),
{
    let mut out: Vec<u8> = Vec::new();
    proof {
        reveal_strlit("{\"id\":");
        assert("{\"id\":".is_ascii());
        reveal_strlit(",\"name\":\"");
        assert(",\"name\":\"".is_ascii());
        reveal_strlit("\",\"email\":\"");
        assert("\",\"email\":\"".is_ascii());
        reveal_strlit("\",\"address\":");
        assert("\",\"address\":".is_ascii());
        reveal_strlit("null");
        assert("null".is_ascii());
        reveal_strlit("\"");
        assert("\"".is_ascii());
        reveal_strlit("}");
        assert("}".is_ascii());
    }
    push_ascii(&mut out, "{\"id\":");
    push_dec_i64(&mut out, u.id);
    push_ascii(&mut out, ",\"name\":\"");
    let name_bytes = u.name.as_str().as_bytes_vec();
    push_escaped(&mut out, &name_bytes);
    push_ascii(&mut out, "\",\"email\":\"");
    let email_bytes = u.email.as_str().as_bytes_vec();
    push_escaped(&mut out, &email_bytes);
    push_ascii(&mut out, "\",\"address\":");
    match &u.address {
        Some(a) => {
            push_json_string(&mut out, a.as_str());
        },
        None => {
            push_ascii(&mut out, "null");
        },
    }
    push_ascii(&mut out, "}");
    proof {
        assert(out@ =~= json_user(u@));
    }
    out
}

/// Serializes a snapshot of user records as a JSON array of their objects.
pub fn users_to_json(users: &Vec<User>) -> (r: Vec<u8>)
    ensures
        r@ == json_users(crate::store::views_of(users@)),
{
    let mut out: Vec<u8> = Vec::new();
    proof {
        reveal_strlit("[");
        assert("[".is_ascii());
        reveal_strlit("]");
        assert("]".is_ascii());
    }
    push_ascii(&mut out, "[");
    proof {
        assert(out@ =~= ascii_bytes("["@) + json_users_body(
            crate::store::views_of(users@).take(0),
        ));
    }
    let n = users.len();
    let mut i: usize = 0;
    while i < n
        invariant
            n == users@.len(),
            i <= n,
            out@ == ascii_bytes("["@) + json_users_body(crate::store::views_of(users@).take(
                i as int,
            )),
        decreases n - i,
    {
        proof {
            reveal_strlit(",");
            assert(",".is_ascii());
        }
        if i > 0 {
            push_ascii(&mut out, ",");
        }
        let mut piece = user_to_json(&users[i]);
        out.append(&mut piece);
        proof {
            lemma_json_users_body_take_step(crate::store::views_of(users@), i as int);
            assert(out@ =~= ascii_bytes("["@) + json_users_body(crate::store::views_of(
                users@,
            ).take(i as int + 1)));
        }
        i += 1;
    }
    push_ascii(&mut out, "]");
    proof {
        let ghost vs = crate::store::views_of(users@);
        assert(vs.take(n as int) =~= vs);
        assert(out@ =~= json_users(vs));
    }
    out
}

/// Taking one more record extends the comma-joined body by a comma (for a
/// non-first record) and that record's text.
proof fn lemma_json_users_body_take_step(s: Seq<UserView>, i: int)
    requires
        0 <= i < s.len(),
    ensures
        i == 0 ==> json_users_body(s.take(1)) == json_user(s[0]),
        i > 0 ==> json_users_body(s.take(i + 1)) == json_users_body(s.take(i)) + ascii_bytes(
            ","@,
        ) + json_user(s[i]),
{
    if i == 0 {
        assert(s.take(1).len() == 1);
        assert(s.take(1)[0] == s[0]);
    } else {
        assert(s.take(i + 1).drop_last() =~= s.take(i));
        assert(s.take(i + 1).last() == s[i]);
    }
}

/// Serializes a mutation confirmation as `{"rows_affected":<n>}`.
pub fn rows_affected_to_json(n: u64) -> (r: Vec<u8>)
    ensures
        r@ == json_rows_affected(n as int),
{
    let mut out: Vec<u8> = Vec::new();
    proof {
        reveal_strlit("{\"rows_affected\":");
        assert("{\"rows_affected\":".is_ascii());
        reveal_strlit("}");
        assert("}".is_ascii());
    }
    push_ascii(&mut out, "{\"rows_affected\":");
    push_dec_u64(&mut out, n);
    push_ascii(&mut out, "}");
    proof {
        assert(out@ =~= json_rows_affected(n as int));
    }
    out
}

/// Serializes an error report as `{"error":"<escaped message>"}`.
pub fn error_to_json(msg: &str) -> (r: Vec<u8>)
    ensures
        r@ == json_error(msg@),
{
    let mut out: Vec<u8> = Vec::new();
    proof {
        reveal_strlit("{\"error\":\"");
        assert("{\"error\":\"".is_ascii());
        reveal_strlit("\"}");
        assert("\"}".is_ascii());
    }
    push_ascii(&mut out, "{\"error\":\"");
    let bytes = msg.as_bytes_vec();
    push_escaped(&mut out, &bytes);
    push_ascii(&mut out, "\"}");
    proof {
        assert(out@ =~= json_error(msg@));
    }
    out
}

/// The JSON text for an absent record: the literal `null`.
pub fn null_json() -> (r: Vec<u8>)
    ensures
        r@ == ascii_bytes("null"@),
{
    let mut out: Vec<u8> = Vec::new();
    proof {
        reveal_strlit("null");
        assert("null".is_ascii());
    }
    push_ascii(&mut out, "null");
    out
}

} // verus!
