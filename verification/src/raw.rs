//! Source-native values as a tagged union, and the timestamp model.
//!
//! Every backend hands the normalizer cells of this shape; the decode cascade
//! turns each into exactly one canonical string.

use vstd::prelude::*;
use crate::json::render_rep;
use crate::json::render_value;
use crate::text::{dec_rep, int_rep, zero_pad, u64_to_dec_pad, hex_rep, i64_to_dec, bytes_to_hex};

verus! {

/// A calendar timestamp held as plain components, so the verified core can
/// render it without depending on a driver's date type.
pub struct Timestamp {
    pub year: i64,
    pub month: u8,
    pub day: u8,
    pub hour: u8,
    pub minute: u8,
    pub second: u8,
}

/// The year as rendered in a timestamp: zero-padded to four digits, the
/// sign ahead of the padding for years before the common era.
pub open spec fn year_rep(y: int) -> Seq<char> {
    if y < 0 {
        seq!['-'] + zero_pad(dec_rep((-y) as nat), 4)
    } else {
        zero_pad(dec_rep(y as nat), 4)
    }
}

/// The single textual form every temporal value is rendered into:
/// `YYYY-MM-DD HH:MM:SS`, each component zero-padded.
pub open spec fn ts_rep(ts: Timestamp) -> Seq<char> {
    year_rep(ts.year as int) + seq!['-'] + zero_pad(dec_rep(ts.month as nat), 2) + seq!['-']
        + zero_pad(dec_rep(ts.day as nat), 2) + seq![' '] + zero_pad(
        dec_rep(ts.hour as nat),
        2,
    ) + seq![':'] + zero_pad(dec_rep(ts.minute as nat), 2) + seq![':'] + zero_pad(
        dec_rep(ts.second as nat),
        2,
    )
}

/// Renders a timestamp into its canonical textual form.
pub fn format_timestamp(ts: &Timestamp) -> (r: String)
    ensures
        r@ == ts_rep(*ts),
{
    let mut r = String::new();
    if ts.year < 0 {
        let m: i128 = -(ts.year as i128);
        r.append("-");
        proof {
            reveal_strlit("-");
        }
        r.append(u64_to_dec_pad(m as u64, 4).as_str());
    } else {
        r.append(u64_to_dec_pad(ts.year as u64, 4).as_str());
    }
    proof {
        assert(r@ =~= year_rep(ts.year as int));
    }
    r.append("-");
    r.append(u64_to_dec_pad(ts.month as u64, 2).as_str());
    r.append("-");
    r.append(u64_to_dec_pad(ts.day as u64, 2).as_str());
    r.append(" ");
    r.append(u64_to_dec_pad(ts.hour as u64, 2).as_str());
    r.append(":");
    r.append(u64_to_dec_pad(ts.minute as u64, 2).as_str());
    r.append(":");
    r.append(u64_to_dec_pad(ts.second as u64, 2).as_str());
    proof {
        reveal_strlit("-");
        reveal_strlit(" ");
        reveal_strlit(":");
        assert(r@ =~= ts_rep(*ts));
    }
    r
}

/// One source-native cell value, as a tagged union over the value kinds the
/// supported engines produce.
///
/// Kinds a driver renders itself (floating point, high-precision decimals)
/// carry that rendering as text: the connector edge converts, the core keeps
/// the text verbatim.
pub enum RawValue {
    /// Native text, used verbatim.
    Text(String),
    /// A signed integer of any width the engines produce.
    Int(i64),
    /// A floating-point value, pre-rendered to locale-independent decimal
    /// text at the connector edge.
    Float(String),
    /// A boolean.
    Bool(bool),
    /// A date/time value, held as plain components.
    DateTime(Timestamp),
    /// A high-precision decimal, carried as its exact decimal text.
    Decimal(String),
    /// An opaque identifier (object id, UUID), as its raw bytes.
    Id(Vec<u8>),
    /// A nested list of values.
    List(Vec<RawValue>),
    /// A nested document: ordered fields of name and value.
    Doc(Vec<(String, RawValue)>),
    /// A null or absent value.
    Null,
    /// A value of a kind no decode step recognizes.
    Unsupported,
}

/// The decode cascade: what canonical string each raw value kind yields.
///
/// Native text passes verbatim; numbers, booleans, timestamps and
/// identifiers get their one textual form; nested values get the
/// deterministic rendering; null and text that is empty both yield `""`
/// (an accepted, documented loss); unrecognized kinds yield a sentinel.
pub open spec fn decode_rep(v: RawValue) -> Seq<char> {
    match v {
        RawValue::Text(s) => s@,
        RawValue::Int(n) => int_rep(n as int),
        RawValue::Float(t) => t@,
        RawValue::Bool(b) => if b {
            "true"@
        } else {
            "false"@
        },
        RawValue::DateTime(ts) => ts_rep(ts),
        RawValue::Decimal(t) => t@,
        RawValue::Id(bs) => hex_rep(bs@),
        RawValue::List(elems) => render_rep(v),
        RawValue::Doc(fields) => render_rep(v),
        RawValue::Null => Seq::empty(),
        RawValue::Unsupported => "[UNSUPPORTED TYPE]"@,
    }
}

/// Decodes one raw value into its canonical cell string.
///
/// Total: every raw value yields some string, with no input excluded,
/// so a cell of an unrecognized kind costs a sentinel, never the row.
pub fn decode_value(v: &RawValue) -> (r: String)
    ensures
        r@ == decode_rep(*v),
{
    match v {
        RawValue::Text(s) => s.clone(),
        RawValue::Int(n) => i64_to_dec(*n),
        RawValue::Float(t) => t.clone(),
        RawValue::Bool(b) => {
            if *b {
                String::from_str("true")
            } else {
                String::from_str("false")
            }
        },
        RawValue::DateTime(ts) => format_timestamp(ts),
        RawValue::Decimal(t) => t.clone(),
        RawValue::Id(bs) => bytes_to_hex(bs),
        RawValue::List(_) => render_value(v),
        RawValue::Doc(_) => render_value(v),
        RawValue::Null => String::new(),
        RawValue::Unsupported => String::from_str("[UNSUPPORTED TYPE]"),
    }
}

/// A cell from a null source value and a cell from an empty-string source
/// value decode to the identical empty output: the two are indistinguishable
/// in the canonical table, a documented loss rather than a defect.
pub proof fn lemma_null_empty_text_same_cell(s: String)
    requires
        s@.len() == 0,
    ensures
        decode_rep(RawValue::Null) =~= decode_rep(RawValue::Text(s)),
        decode_rep(RawValue::Null) =~= Seq::<char>::empty(),
{
}

} // verus!
