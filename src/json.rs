//! JSON text for strings, integers and arrays, produced as UTF-8 bytes.
//!
//! String literals are written by serde_json; integers are written in
//! decimal and arrays are assembled here.

use vstd::prelude::*;
use vstd::utf8::encode_utf8;

verus! {

/// The UTF-8 bytes of a text.
pub open spec fn text(s: Seq<char>) -> Seq<u8> {
    encode_utf8(s)
}

/// serde_json's error, carried without looking inside.
#[verifier::external_type_specification]
#[verifier::external_body]
pub struct ExJsonError(serde_json::Error);

/// The JSON string literal that serde_json writes for a text, quotes
/// included.
pub uninterp spec fn json_string_text(s: Seq<char>) -> Seq<char>;

/// Relies on `serde_json::to_string` applied to a string slice: it returns
/// the JSON string literal of the text, which depends on the text alone.
/// Its documented failures come from a `Serialize` impl that decides to fail
/// or from a map with non-string keys; a string slice has neither, so it
/// succeeds.
#[verifier::external_body]
fn quote_json(s: &str) -> (r: Result<String, serde_json::Error>)
    ensures
        r is Ok,
        r matches Ok(t) ==> t@ == json_string_text(s@),
{
    serde_json::to_string(s)
}

/// A JSON string literal holding the text, as UTF-8 bytes.
pub open spec fn json_string(s: Seq<char>) -> Seq<u8> {
    text(json_string_text(s))
}

/// Decimal digits of a natural number, without leading zeros.
pub open spec fn decimal(n: nat) -> Seq<u8>
    decreases n,
{
    if n < 10 {
        seq![(48 + n) as u8]
    } else {
        decimal(n / 10) + seq![(48 + n % 10) as u8]
    }
}

/// A JSON number holding the integer.
pub open spec fn json_int(n: int) -> Seq<u8> {
    if n < 0 {
        seq![0x2du8] + decimal((-n) as nat)
    } else {
        decimal(n as nat)
    }
}

/// The comma-separated string literals of the texts.
pub open spec fn string_items(v: Seq<Seq<char>>) -> Seq<u8>
    decreases v.len(),
{
    if v.len() == 0 {
        Seq::empty()
    } else if v.len() == 1 {
        json_string(v[0])
    } else {
        string_items(v.drop_last()) + seq![0x2cu8] + json_string(v.last())
    }
}

/// A JSON array of string literals.
pub open spec fn string_array(v: Seq<Seq<char>>) -> Seq<u8> {
    seq![0x5bu8] + string_items(v) + seq![0x5du8]
}

/// The comma-separated numbers of the integers.
pub open spec fn int_items(v: Seq<i64>) -> Seq<u8>
    decreases v.len(),
{
    if v.len() == 0 {
        Seq::empty()
    } else if v.len() == 1 {
        json_int(v[0] as int)
    } else {
        int_items(v.drop_last()) + seq![0x2cu8] + json_int(v.last() as int)
    }
}

/// A JSON array of integers.
pub open spec fn int_array(v: Seq<i64>) -> Seq<u8> {
    seq![0x5bu8] + int_items(v) + seq![0x5du8]
}

/// Appends the UTF-8 bytes of a text.
pub fn push_text(out: &mut Vec<u8>, s: &str)
    ensures
        final(out)@ == old(out)@ + text(s@),
{
    let b = s.as_bytes();
    let ghost start = out@;
    let mut i: usize = 0;
    while i < b.len()
        invariant
            b@ == text(s@),
            i <= b@.len(),
            out@ == start + b@.take(i as int),
        decreases b@.len() - i,
    {
        out.push(b[i]);
        assert(b@.take(i + 1) =~= b@.take(i as int).push(b@[i as int]));
        i = i + 1;
    }
    assert(b@.take(i as int) =~= b@);
}

/// Appends a JSON string literal holding the text.
pub fn push_json_string(out: &mut Vec<u8>, s: &str)
    ensures
        final(out)@ == old(out)@ + json_string(s@),
{
    match quote_json(s) {
        Ok(t) => {
            push_text(out, t.as_str());
        },
        Err(_) => {},
    }
}

/// Appends the decimal digits of a natural number.
pub fn push_decimal(out: &mut Vec<u8>, n: u64)
    ensures
        final(out)@ == old(out)@ + decimal(n as nat),
    decreases n,
{
    let ghost start = out@;
    if n >= 10 {
        push_decimal(out, n / 10);
    }
    out.push(48 + (n % 10) as u8);
    assert(out@ =~= start + decimal(n as nat));
}

/// Appends a JSON number holding the integer.
pub fn push_int(out: &mut Vec<u8>, n: i64)
    ensures
        final(out)@ == old(out)@ + json_int(n as int),
{
    let ghost start = out@;
    if n < 0 {
        out.push(0x2d);
        let m: u64 = (0 - (n as i128)) as u64;
        push_decimal(out, m);
        assert(out@ =~= start + json_int(n as int));
    } else {
        push_decimal(out, n as u64);
    }
}

/// Appends a JSON array of the strings.
pub fn push_string_array(out: &mut Vec<u8>, v: &Vec<String>)
    ensures
        final(out)@ == old(out)@ + string_array(v@.map_values(|s: String| s@)),
{
    let ghost start = out@;
    let ghost tv = v@.map_values(|s: String| s@);
    out.push(0x5b);
    let mut i: usize = 0;
    while i < v.len()
        invariant
            tv == v@.map_values(|s: String| s@),
            i <= v@.len(),
            out@ == start + seq![0x5bu8] + string_items(tv.take(i as int)),
        decreases v@.len() - i,
    {
        if i > 0 {
            out.push(0x2c);
        }
        push_json_string(out, v[i].as_str());
        assert(tv.take(i + 1).drop_last() =~= tv.take(i as int));
        assert(tv.take(i + 1).last() == v@[i as int]@);
        i = i + 1;
    }
    assert(tv.take(i as int) =~= tv);
    out.push(0x5d);
    assert(out@ =~= start + string_array(tv));
}

/// Appends a JSON array of the integers.
pub fn push_int_array(out: &mut Vec<u8>, v: &Vec<i64>)
    ensures
        final(out)@ == old(out)@ + int_array(v@),
{
    let ghost start = out@;
    out.push(0x5b);
    let mut i: usize = 0;
    while i < v.len()
        invariant
            i <= v@.len(),
            out@ == start + seq![0x5bu8] + int_items(v@.take(i as int)),
        decreases v@.len() - i,
    {
        if i > 0 {
            out.push(0x2c);
        }
        push_int(out, v[i]);
        assert(v@.take(i + 1).drop_last() =~= v@.take(i as int));
        i = i + 1;
    }
    assert(v@.take(i as int) =~= v@);
    out.push(0x5d);
    assert(out@ =~= start + int_array(v@));
}

} // verus!
