//! JSON-style text: string escaping and the deterministic rendering of
//! nested values.
//!
//! One renderer serves two places: composite cells in the decode cascade,
//! and the records of an upload request body.

use vstd::prelude::*;
use crate::raw::RawValue;
use crate::raw::ts_rep;
use crate::raw::format_timestamp;
use crate::text::hex_digit;
use crate::text::hex_digit_str;
use crate::text::hex_rep;
use crate::text::int_rep;
use crate::text::bytes_to_hex;
use crate::text::i64_to_dec;

verus! {

broadcast use
    vstd::seq::axiom_seq_index_decreases,
    vstd::std_specs::vec::axiom_vec_index_decreases,
    vstd::std_specs::vec::axiom_vec_decreases_to_view,
;

/// How one character appears inside a JSON string literal.
pub open spec fn escape_char(c: char) -> Seq<char> {
    if c == '"' {
        seq!['\\', '"']
    } else if c == '\\' {
        seq!['\\', '\\']
    } else if c == '\n' {
        seq!['\\', 'n']
    } else if c == '\r' {
        seq!['\\', 'r']
    } else if c == '\t' {
        seq!['\\', 't']
    } else if (c as u32) < 32 {
        seq!['\\', 'u', '0', '0', hex_digit(c as u32 as int / 16), hex_digit(
            c as u32 as int % 16,
        )]
    } else {
        seq![c]
    }
}

/// The escaped form of the character suffix starting at index `i`.
pub open spec fn escape_from(s: Seq<char>, i: int) -> Seq<char>
    decreases s.len() - i,
{
    if i < 0 || i >= s.len() {
        Seq::empty()
    } else {
        escape_char(s[i]) + escape_from(s, i + 1)
    }
}

/// The body of a JSON string literal holding `s`: every character escaped.
pub open spec fn escape_rep(s: Seq<char>) -> Seq<char> {
    escape_from(s, 0)
}

/// Appends the escaped form of `s` to `out`.
pub fn escape_into(out: &mut String, s: &str)
    ensures
        final(out)@ == old(out)@ + escape_rep(s@),
{
    let n = s.unicode_len();
    let mut i: usize = 0;
    while i < n
        invariant
            n == s@.len(),
            i <= n,
            old(out)@ + escape_rep(s@) =~= out@ + escape_from(s@, i as int),
        decreases n - i,
    {
        let c = s.get_char(i);
        if c == '"' {
            out.append("\\\"");
            proof {
                reveal_strlit("\\\"");
            }
        } else if c == '\\' {
            out.append("\\\\");
            proof {
                reveal_strlit("\\\\");
            }
        } else if c == '\n' {
            out.append("\\n");
            proof {
                reveal_strlit("\\n");
            }
        } else if c == '\r' {
            out.append("\\r");
            proof {
                reveal_strlit("\\r");
            }
        } else if c == '\t' {
            out.append("\\t");
            proof {
                reveal_strlit("\\t");
            }
        } else if (c as u32) < 32 {
            let b = c as u32 as u8;
            out.append("\\u00");
            out.append(hex_digit_str(b / 16));
            out.append(hex_digit_str(b % 16));
            proof {
                reveal_strlit("\\u00");
            }
        } else {
            out.append(s.substring_char(i, i + 1));
            proof {
                assert(s@.subrange(i as int, i + 1) =~= seq![s@[i as int]]);
            }
        }
        proof {
            assert(old(out)@ + escape_rep(s@) =~= out@ + escape_from(s@, i + 1));
        }
        i = i + 1;
    }
    proof {
        assert(final(out)@ =~= old(out)@ + escape_rep(s@));
    }
}

/// The deterministic rendering of one nested value, JSON-style: text and
/// identifiers quoted and escaped, numbers and booleans bare, lists in
/// `[..]`, documents in `{..}`. Not guaranteed to round-trip.
pub open spec fn render_rep(v: RawValue) -> Seq<char>
    decreases v, 0int,
{
    match v {
        RawValue::Text(s) => seq!['"'] + escape_rep(s@) + seq!['"'],
        RawValue::Int(n) => int_rep(n as int),
        RawValue::Float(t) => t@,
        RawValue::Bool(b) => if b {
            "true"@
        } else {
            "false"@
        },
        RawValue::DateTime(ts) => seq!['"'] + ts_rep(ts) + seq!['"'],
        RawValue::Decimal(t) => t@,
        RawValue::Id(bs) => seq!['"'] + hex_rep(bs@) + seq!['"'],
        RawValue::List(elems) => seq!['['] + render_items_from(elems@, 0) + seq![']'],
        RawValue::Doc(fields) => seq!['{'] + render_fields_from(fields@, 0) + seq!['}'],
        RawValue::Null => "null"@,
        RawValue::Unsupported => seq!['"'] + "[UNSUPPORTED TYPE]"@ + seq!['"'],
    }
}

/// The rendering of list elements from index `i` on, comma-separated.
pub open spec fn render_items_from(s: Seq<RawValue>, i: int) -> Seq<char>
    decreases s, s.len() - i + 1,
{
    if i < 0 || i >= s.len() {
        Seq::empty()
    } else if i == 0 {
        render_rep(s[0]) + render_items_from(s, 1)
    } else {
        seq![',', ' '] + render_rep(s[i]) + render_items_from(s, i + 1)
    }
}

/// The rendering of document fields from index `i` on: quoted escaped name,
/// a colon, the value, comma-separated.
pub open spec fn render_fields_from(s: Seq<(String, RawValue)>, i: int) -> Seq<char>
    decreases s, s.len() - i + 1,
{
    if i < 0 || i >= s.len() {
        Seq::empty()
    } else {
        (if i == 0 {
            Seq::<char>::empty()
        } else {
            seq![',', ' ']
        }) + seq!['"'] + escape_rep(s[i].0@) + seq!['"', ':', ' '] + render_rep(s[i].1)
            + render_fields_from(s, i + 1)
    }
}

/// Renders one nested value into its deterministic textual form.
pub fn render_value(v: &RawValue) -> (r: String)
    ensures
        r@ == render_rep(*v),
    decreases *v,
{
    match v {
        RawValue::Text(s) => {
            let mut r = String::from_str("\"");
            proof {
                reveal_strlit("\"");
            }
            escape_into(&mut r, s.as_str());
            r.append("\"");
            proof {
                assert(r@ =~= render_rep(*v));
            }
            r
        },
        RawValue::Int(n) => i64_to_dec(*n),
        RawValue::Float(t) => t.clone(),
        RawValue::Bool(b) => {
            if *b {
                String::from_str("true")
            } else {
                String::from_str("false")
            }
        },
        RawValue::DateTime(ts) => {
            let mut r = String::from_str("\"");
            proof {
                reveal_strlit("\"");
            }
            r.append(format_timestamp(ts).as_str());
            r.append("\"");
            proof {
                assert(r@ =~= render_rep(*v));
            }
            r
        },
        RawValue::Decimal(t) => t.clone(),
        RawValue::Id(bs) => {
            let mut r = String::from_str("\"");
            proof {
                reveal_strlit("\"");
            }
            r.append(bytes_to_hex(bs).as_str());
            r.append("\"");
            proof {
                assert(r@ =~= render_rep(*v));
            }
            r
        },
        RawValue::List(elems) => {
            let mut r = String::from_str("[");
            proof {
                reveal_strlit("[");
            }
            let mut i: usize = 0;
            while i < elems.len()
                invariant
                    *v == RawValue::List(*elems),
                    i <= elems@.len(),
                    seq!['['] + render_items_from(elems@, 0) =~= r@ + render_items_from(
                        elems@,
                        i as int,
                    ),
                decreases elems@.len() - i,
            {
                if i > 0 {
                    r.append(", ");
                    proof {
                        reveal_strlit(", ");
                    }
                }
                proof {
                    assert(decreases_to!(*v => v->List_0));
                    assert(v->List_0 == *elems);
                    assert(decreases_to!(*elems => elems@[i as int]));
                }
                let piece = render_value(&elems[i]);
                r.append(piece.as_str());
                proof {
                    assert(seq!['['] + render_items_from(elems@, 0) =~= r@
                        + render_items_from(elems@, i + 1));
                }
                i = i + 1;
            }
            r.append("]");
            proof {
                reveal_strlit("]");
                assert(r@ =~= render_rep(*v));
            }
            r
        },
        RawValue::Doc(fields) => {
            let mut r = String::from_str("{");
            proof {
                reveal_strlit("{");
            }
            let mut i: usize = 0;
            while i < fields.len()
                invariant
                    *v == RawValue::Doc(*fields),
                    i <= fields@.len(),
                    seq!['{'] + render_fields_from(fields@, 0) =~= r@ + render_fields_from(
                        fields@,
                        i as int,
                    ),
                decreases fields@.len() - i,
            {
                if i > 0 {
                    r.append(", ");
                    proof {
                        reveal_strlit(", ");
                    }
                }
                r.append("\"");
                proof {
                    reveal_strlit("\"");
                }
                escape_into(&mut r, fields[i].0.as_str());
                r.append("\": ");
                proof {
                    reveal_strlit("\": ");
                }
                proof {
                    assert(decreases_to!(*v => v->Doc_0));
                    assert(v->Doc_0 == *fields);
                    assert(decreases_to!(*fields => fields@[i as int]));
                    assert(decreases_to!(fields@[i as int] => fields@[i as int].1));
                }
                let piece = render_value(&fields[i].1);
                r.append(piece.as_str());
                proof {
                    assert(seq!['{'] + render_fields_from(fields@, 0) =~= r@
                        + render_fields_from(fields@, i + 1));
                }
                i = i + 1;
            }
            r.append("}");
            proof {
                reveal_strlit("}");
                assert(r@ =~= render_rep(*v));
            }
            r
        },
        RawValue::Null => String::from_str("null"),
        RawValue::Unsupported => {
            let r = String::from_str("\"[UNSUPPORTED TYPE]\"");
            proof {
                reveal_strlit("\"[UNSUPPORTED TYPE]\"");
                reveal_strlit("[UNSUPPORTED TYPE]");
                assert(r@ =~= render_rep(*v));
            }
            r
        },
    }
}

/// The body of one outgoing record from field index `i` on: escaped field
/// identifier and cell value, both as JSON strings, comma-separated.
pub open spec fn record_body_from(fields: Seq<(String, String)>, i: int) -> Seq<char>
    decreases fields.len() - i,
{
    if i < 0 || i >= fields.len() {
        Seq::empty()
    } else {
        (if i == 0 {
            Seq::<char>::empty()
        } else {
            seq![',']
        }) + seq!['"'] + escape_rep(fields[i].0@) + seq!['"', ':', '"'] + escape_rep(fields[i].1@)
            + seq!['"'] + record_body_from(fields, i + 1)
    }
}

/// One outgoing record as a JSON object; every value is a JSON string,
/// never coerced back to number or boolean.
pub open spec fn record_body(fields: Seq<(String, String)>) -> Seq<char> {
    seq!['{'] + record_body_from(fields, 0) + seq!['}']
}

/// The records of one batch from index `i` on, comma-separated.
pub open spec fn records_body_from(records: Seq<Vec<(String, String)>>, i: int) -> Seq<char>
    decreases records.len() - i,
{
    if i < 0 || i >= records.len() {
        Seq::empty()
    } else {
        (if i == 0 {
            Seq::<char>::empty()
        } else {
            seq![',']
        }) + record_body(records[i]@) + records_body_from(records, i + 1)
    }
}

/// The upload request body for one batch:
/// `{"records":[...],"fieldKey":"id"}`.
pub open spec fn upload_body_rep(records: Seq<Vec<(String, String)>>) -> Seq<char> {
    "{\"records\":["@ + records_body_from(records, 0) + "],\"fieldKey\":\"id\"}"@
}

/// Appends one shaped record as a JSON object.
fn render_record_into(out: &mut String, fields: &Vec<(String, String)>)
    ensures
        final(out)@ == old(out)@ + record_body(fields@),
{
    out.append("{");
    proof {
        reveal_strlit("{");
    }
    let mut i: usize = 0;
    while i < fields.len()
        invariant
            i <= fields@.len(),
            old(out)@ + seq!['{'] + record_body_from(fields@, 0) =~= out@ + record_body_from(
                fields@,
                i as int,
            ),
        decreases fields@.len() - i,
    {
        if i > 0 {
            out.append(",");
            proof {
                reveal_strlit(",");
            }
        }
        out.append("\"");
        proof {
            reveal_strlit("\"");
        }
        escape_into(out, fields[i].0.as_str());
        out.append("\":\"");
        proof {
            reveal_strlit("\":\"");
        }
        escape_into(out, fields[i].1.as_str());
        out.append("\"");
        proof {
            assert(old(out)@ + seq!['{'] + record_body_from(fields@, 0) =~= out@
                + record_body_from(fields@, i + 1));
        }
        i = i + 1;
    }
    out.append("}");
    proof {
        reveal_strlit("}");
        assert(final(out)@ =~= old(out)@ + record_body(fields@));
    }
}

/// Renders the upload request body carrying one batch's shaped records.
pub fn render_upload_body(records: &Vec<Vec<(String, String)>>) -> (r: String)
    ensures
        r@ == upload_body_rep(records@),
{
    let mut r = String::from_str("{\"records\":[");
    let mut i: usize = 0;
    while i < records.len()
        invariant
            i <= records@.len(),
            "{\"records\":["@ + records_body_from(records@, 0) =~= r@ + records_body_from(
                records@,
                i as int,
            ),
        decreases records@.len() - i,
    {
        if i > 0 {
            r.append(",");
            proof {
                reveal_strlit(",");
            }
        }
        render_record_into(&mut r, &records[i]);
        proof {
            assert("{\"records\":["@ + records_body_from(records@, 0) =~= r@ + records_body_from(
                records@,
                i + 1,
            ));
        }
        i = i + 1;
    }
    r.append("],\"fieldKey\":\"id\"}");
    proof {
        assert(r@ =~= upload_body_rep(records@));
    }
    r
}

} // verus!
