//! JSON rendering of field values. Every archived line is JSON text; the
//! spec functions here are the bit-exact contract of that text.
use vstd::prelude::*;

use crate::strutil::{chars_vec, digit_char, push_char};
use crate::time::{rfc3339_millis, rfc3339_millis_of, MILLIS_LIMIT};
use crate::value::Value;

verus! {

/// The character for one hexadecimal digit, lower case.
pub open spec fn hex_digit(d: int) -> char {
    if d < 10 {
        ((48 + d) as u8) as char
    } else {
        ((87 + d) as u8) as char
    }
}

/// How one character appears inside a JSON string literal: quote and
/// backslash are escaped, control characters use the `\u00XX` form, and
/// everything else stands as itself.
pub open spec fn esc_char(c: char) -> Seq<char> {
    if c == '"' {
        seq!['\\', '"']
    } else if c == '\\' {
        seq!['\\', '\\']
    } else if (c as u32) < 32 {
        seq!['\\', 'u', '0', '0', hex_digit(c as u32 as int / 16), hex_digit(c as u32 as int % 16)]
    } else {
        seq![c]
    }
}

/// The body of a JSON string literal.
pub open spec fn escaped(s: Seq<char>) -> Seq<char>
    decreases s.len(),
{
    if s.len() == 0 {
        Seq::empty()
    } else {
        escaped(s.drop_last()) + esc_char(s.last())
    }
}

/// A JSON string literal, quotes included.
pub open spec fn json_of_string(s: Seq<char>) -> Seq<char> {
    seq!['"'] + escaped(s) + seq!['"']
}

/// The decimal digits of a nonnegative integer.
pub open spec fn dec_of(n: int) -> Seq<char>
    decreases n,
{
    if n < 10 {
        seq![digit_char(n)]
    } else {
        dec_of(n / 10) + seq![digit_char(n % 10)]
    }
}

/// A JSON integer, with a leading minus sign when negative.
pub open spec fn json_of_int(i: int) -> Seq<char> {
    if i < 0 {
        seq!['-'] + dec_of(-i)
    } else {
        dec_of(i)
    }
}

/// The JSON text of one value. Timestamps render as RFC 3339 strings when
/// they lie in the four-digit-year range, and as raw milliseconds
/// otherwise.
pub open spec fn json_of_value(v: Value) -> Seq<char>
    decreases v,
{
    match v {
        Value::Null => seq!['n', 'u', 'l', 'l'],
        Value::Bool(b) => if b {
            seq!['t', 'r', 'u', 'e']
        } else {
            seq!['f', 'a', 'l', 's', 'e']
        },
        Value::Int(i) => json_of_int(i as int),
        Value::Str(s) => json_of_string(s@),
        Value::Timestamp(t) => if 0 <= t < MILLIS_LIMIT {
            seq!['"'] + rfc3339_millis_of(t as int) + seq!['"']
        } else {
            json_of_int(t as int)
        },
        Value::Arr(items) => seq!['['] + json_of_arr(items@) + seq![']'],
        Value::Obj(fields) => seq!['{'] + json_of_fields(fields@) + seq!['}'],
    }
}

/// Comma-separated JSON of a sequence of values.
pub open spec fn json_of_arr(s: Seq<Value>) -> Seq<char>
    decreases s,
{
    if s.len() == 0 {
        Seq::empty()
    } else if s.len() == 1 {
        json_of_value(s.last())
    } else {
        json_of_arr(s.drop_last()) + seq![','] + json_of_value(s.last())
    }
}

/// One `"name":value` member of a JSON object.
pub open spec fn json_of_field(f: (String, Value)) -> Seq<char>
    decreases f,
{
    json_of_string(f.0@) + seq![':'] + json_of_value(f.1)
}

/// Comma-separated members of a JSON object.
pub open spec fn json_of_fields(s: Seq<(String, Value)>) -> Seq<char>
    decreases s,
{
    if s.len() == 0 {
        Seq::empty()
    } else if s.len() == 1 {
        json_of_field(s.last())
    } else {
        json_of_fields(s.drop_last()) + seq![','] + json_of_field(s.last())
    }
}

/// Appends the JSON string literal for `s`, escaping as `esc_char` says.
pub fn write_json_string(out: &mut String, s: &str)
    ensures
        final(out)@ == old(out)@ + json_of_string(s@),
{
    push_char(out, '"');
    let cs = chars_vec(s);
    let mut i: usize = 0;
    while i < cs.len()
        invariant
            i <= cs.len(),
            cs@ == s@,
            out@ == old(out)@ + seq!['"'] + escaped(s@.take(i as int)),
        decreases cs.len() - i,
    {
        let c = cs[i];
        proof {
            assert(s@.take(i as int + 1).drop_last() =~= s@.take(i as int));
        }
        let code = c as u32;
        if c == '"' {
            push_char(out, '\\');
            push_char(out, '"');
        } else if c == '\\' {
            push_char(out, '\\');
            push_char(out, '\\');
        } else if code < 32 {
            push_char(out, '\\');
            push_char(out, 'u');
            push_char(out, '0');
            push_char(out, '0');
            let hi = (code / 16) as u8;
            let lo = (code % 16) as u8;
            push_char(out, (if hi < 10 { 48 + hi } else { 87 + hi }) as char);
            push_char(out, (if lo < 10 { 48 + lo } else { 87 + lo }) as char);
        } else {
            push_char(out, c);
        }
        proof {
            assert(out@ =~= old(out)@ + seq!['"'] + escaped(s@.take(i as int + 1)));
        }
        i = i + 1;
    }
    push_char(out, '"');
    proof {
        assert(s@.take(s@.len() as int) =~= s@);
        assert(final(out)@ =~= old(out)@ + json_of_string(s@));
    }
}

/// Appends the decimal digits of `n`.
pub fn write_dec(out: &mut String, n: u64)
    ensures
        final(out)@ == old(out)@ + dec_of(n as int),
    decreases n,
{
    if n < 10 {
        push_char(out, (48 + n as u8) as char);
    } else {
        write_dec(out, n / 10);
        push_char(out, (48 + (n % 10) as u8) as char);
    }
}

/// Appends a signed integer in decimal.
pub fn write_json_int(out: &mut String, i: i64)
    ensures
        final(out)@ == old(out)@ + json_of_int(i as int),
{
    if i >= 0 {
        write_dec(out, i as u64);
    } else {
        push_char(out, '-');
        let m: u64 = ((-(i + 1)) as u64) + 1;
        proof {
            assert(m as int == -(i as int));
        }
        write_dec(out, m);
    }
}

/// Appends the JSON text of one value.
#[verifier::loop_isolation(false)]
pub fn write_json_value(out: &mut String, v: &Value)
    ensures
        final(out)@ == old(out)@ + json_of_value(*v),
    decreases *v,
{
    match v {
        Value::Null => {
            push_char(out, 'n');
            push_char(out, 'u');
            push_char(out, 'l');
            push_char(out, 'l');
            proof {
                assert(final(out)@ =~= old(out)@ + json_of_value(*v));
            }
        },
        Value::Bool(b) => {
            if *b {
                push_char(out, 't');
                push_char(out, 'r');
                push_char(out, 'u');
                push_char(out, 'e');
            } else {
                push_char(out, 'f');
                push_char(out, 'a');
                push_char(out, 'l');
                push_char(out, 's');
                push_char(out, 'e');
            }
            proof {
                assert(final(out)@ =~= old(out)@ + json_of_value(*v));
            }
        },
        Value::Int(i) => {
            write_json_int(out, *i);
        },
        Value::Str(s) => {
            write_json_string(out, s.as_str());
        },
        Value::Timestamp(t) => {
            if 0 <= *t && (*t as u64) < MILLIS_LIMIT {
                push_char(out, '"');
                let d = rfc3339_millis(*t as u64);
                out.append(d.as_str());
                push_char(out, '"');
                proof {
                    assert(final(out)@ =~= old(out)@ + json_of_value(*v));
                }
            } else {
                write_json_int(out, *t);
            }
        },
        Value::Arr(items) => {
            push_char(out, '[');
            let mut i: usize = 0;
            while i < items.len()
                invariant
                    i <= items.len(),
                    out@ == old(out)@ + seq!['['] + json_of_arr(items@.take(i as int)),
                decreases items.len() - i,
            {
                if i > 0 {
                    push_char(out, ',');
                }
                proof {
                    broadcast use vstd::std_specs::vec::group_vec_axioms;

                    assert(decreases_to!(*v => v->Arr_0));
                    assert(v->Arr_0 == *items);
                    assert(decreases_to!(*items => items[i as int]));
                }
                write_json_value(out, &items[i]);
                proof {
                    assert(items@.take(i as int + 1).drop_last() =~= items@.take(i as int));
                    assert(items@.take(i as int + 1).last() == items@[i as int]);
                    assert(out@ =~= old(out)@ + seq!['['] + json_of_arr(
                        items@.take(i as int + 1),
                    ));
                }
                i = i + 1;
            }
            push_char(out, ']');
            proof {
                assert(items@.take(items@.len() as int) =~= items@);
                assert(final(out)@ =~= old(out)@ + json_of_value(*v));
            }
        },
        Value::Obj(fields) => {
            push_char(out, '{');
            let mut i: usize = 0;
            while i < fields.len()
                invariant
                    i <= fields.len(),
                    out@ == old(out)@ + seq!['{'] + json_of_fields(fields@.take(i as int)),
                decreases fields.len() - i,
            {
                if i > 0 {
                    push_char(out, ',');
                }
                write_json_string(out, fields[i].0.as_str());
                push_char(out, ':');
                proof {
                    broadcast use vstd::std_specs::vec::group_vec_axioms;

                    assert(decreases_to!(*v => v->Obj_0));
                    assert(v->Obj_0 == *fields);
                    assert(decreases_to!(*fields => fields[i as int]));
                    assert(decreases_to!(fields[i as int] => fields[i as int].1));
                }
                write_json_value(out, &fields[i].1);
                proof {
                    let fs = fields@;
                    assert(fs.take(i as int + 1).drop_last() =~= fs.take(i as int));
                    assert(fs.take(i as int + 1).last() == fs[i as int]);
                    assert(json_of_field(fs[i as int]) == json_of_string(fs[i as int].0@)
                        + seq![':'] + json_of_value(fs[i as int].1));
                    assert(out@ =~= old(out)@ + seq!['{'] + json_of_fields(
                        fs.take(i as int + 1),
                    ));
                }
                i = i + 1;
            }
            push_char(out, '}');
            proof {
                assert(fields@.take(fields@.len() as int) =~= fields@);
                assert(final(out)@ =~= old(out)@ + json_of_value(*v));
            }
        },
    }
}

} // verus!
