//! The value normalizer: turns raw source records into the canonical table.
//!
//! Header policy: schema sources hand an explicit ordered header list
//! (`normalize_matrix`); schemaless sources derive headers from the first
//! record, sorted for determinism (`normalize_records`); pure key-value
//! sources get a fixed synthetic two-column schema (`kv_table`).

use vstd::prelude::*;
use crate::order::{
    lex_lt,
    lemma_lex_refl_from,
    lemma_lex_total_from,
    lemma_lex_antisym,
    lemma_lex_lt_trans,
    str_le,
    str_eq,
};
use crate::raw::{RawValue, decode_rep, decode_value};
use crate::table::ExtractedData;

verus! {

/// Headers in strictly ascending lexicographic order (hence unique).
pub open spec fn strictly_sorted(hs: Seq<String>) -> bool {
    forall|i: int, j: int| 0 <= i < j < hs.len() ==> lex_lt((#[trigger] hs[i])@, (#[trigger] hs[j])@)
}

/// Some header in `hs` reads `x`.
pub open spec fn has_header(hs: Seq<String>, x: Seq<char>) -> bool {
    exists|k: int| 0 <= k < hs.len() && (#[trigger] hs[k])@ == x
}

/// Some field of the record is named `x`.
pub open spec fn has_key(fields: Seq<(String, RawValue)>, x: Seq<char>) -> bool {
    exists|k: int| 0 <= k < fields.len() && (#[trigger] fields[k]).0@ == x
}

/// Inserts a header into a strictly sorted list, keeping it sorted;
/// a header already present is not duplicated.
fn sorted_insert(hs: &mut Vec<String>, s: String)
    requires
        strictly_sorted(old(hs)@),
    ensures
        strictly_sorted(final(hs)@),
        forall|x: Seq<char>|
            #[trigger] has_header(final(hs)@, x) <==> (has_header(old(hs)@, x) || x == s@),
{
    let ghost orig = hs@;
    let mut i: usize = 0;
    loop
        invariant
            orig == old(hs)@,
            hs@ == orig,
            strictly_sorted(hs@),
            i <= hs@.len(),
            forall|j: int| 0 <= j < i ==> lex_lt((#[trigger] hs@[j])@, s@),
        decreases hs@.len() - i,
    {
        if i == hs.len() {
            hs.push(s);
            proof {
                assert(hs@ =~= orig.push(s));
                assert forall|x: Seq<char>| #[trigger]
                    has_header(hs@, x) <==> (has_header(orig, x) || x == s@) by {
                    if has_header(orig, x) {
                        let k = choose|k: int| 0 <= k < orig.len() && (#[trigger] orig[k])@ == x;
                        assert(hs@[k]@ == x);
                    }
                    if x == s@ {
                        assert(hs@[orig.len() as int]@ == x);
                    }
                }
            }
            return ;
        }
        let cur_le = str_le(s.as_str(), hs[i].as_str());
        if cur_le {
            let cur_eq = str_eq(s.as_str(), hs[i].as_str());
            if cur_eq {
                proof {
                    assert(hs@[i as int]@ == s@);
                    assert forall|x: Seq<char>| #[trigger]
                        has_header(hs@, x) <==> (has_header(orig, x) || x == s@) by {
                        if x == s@ {
                            assert(hs@[i as int]@ == x);
                        }
                    }
                }
                return ;
            }
            proof {
                assert(lex_lt(s@, hs@[i as int]@));
            }
            let ghost pre = hs@;
            hs.insert(i, s);
            proof {
                let v = hs@;
                let ii = i as int;
                assert(v == pre.insert(ii, s));
                assert(v.len() == pre.len() + 1);
                assert(forall|j: int| 0 <= j < ii ==> v[j] == pre[j]);
                assert(v[ii] == s);
                assert(forall|j: int| ii < j < v.len() ==> v[j] == pre[j - 1]);
                assert forall|p: int, q: int| 0 <= p < q < v.len() implies lex_lt(
                    (#[trigger] v[p])@,
                    (#[trigger] v[q])@,
                ) by {
                    if p < ii && q == ii {
                        // before the insertion point: strictly below s
                    } else if p == ii && q > ii {
                        // s is strictly below hs[i], which is at or below v[q]
                        if q > ii + 1 {
                            lemma_lex_lt_trans(s@, pre[ii]@, pre[q - 1]@);
                        }
                    } else if p < ii && q > ii {
                        // both were already present and ordered
                    }
                }
                assert forall|x: Seq<char>| #[trigger]
                    has_header(v, x) <==> (has_header(pre, x) || x == s@) by {
                    if has_header(v, x) {
                        let k = choose|k: int| 0 <= k < v.len() && (#[trigger] v[k])@ == x;
                        if k < ii {
                            assert(pre[k]@ == x);
                        } else if k > ii {
                            assert(pre[k - 1]@ == x);
                        }
                    }
                    if has_header(pre, x) {
                        let k = choose|k: int| 0 <= k < pre.len() && (#[trigger] pre[k])@ == x;
                        if k < ii {
                            assert(v[k]@ == x);
                        } else {
                            assert(v[k + 1]@ == x);
                        }
                    }
                    if x == s@ {
                        assert(v[ii]@ == x);
                    }
                }
            }
            return ;
        }
        proof {
            lemma_lex_total_from(s@, hs@[i as int]@, 0);
            if s@ == hs@[i as int]@ {
                lemma_lex_refl_from(s@, 0);
            }
            assert(lex_lt(hs@[i as int]@, s@));
        }
        i = i + 1;
    }
}

/// Derives the canonical headers of a schemaless source from its first
/// record: every field name of that record, lexicographically sorted,
/// without duplicates.
pub fn derive_headers(fields: &Vec<(String, RawValue)>) -> (hs: Vec<String>)
    ensures
        strictly_sorted(hs@),
        forall|x: Seq<char>| #[trigger] has_header(hs@, x) <==> has_key(fields@, x),
{
    let mut hs: Vec<String> = Vec::new();
    let mut i: usize = 0;
    while i < fields.len()
        invariant
            i <= fields@.len(),
            strictly_sorted(hs@),
            forall|x: Seq<char>| #[trigger]
                has_header(hs@, x) <==> has_key(fields@.take(i as int), x),
        decreases fields@.len() - i,
    {
        sorted_insert(&mut hs, fields[i].0.clone());
        proof {
            let pre = fields@.take(i as int);
            let post = fields@.take(i + 1);
            assert(post =~= pre.push(fields@[i as int]));
            assert forall|x: Seq<char>| #[trigger] has_key(post, x) implies (has_key(pre, x) || x
                == fields@[i as int].0@) by {
                let k = choose|k: int| 0 <= k < post.len() && (#[trigger] post[k]).0@ == x;
                if k < i {
                    assert(pre[k].0@ == x);
                }
            }
            assert forall|x: Seq<char>| (has_key(pre, x) || x == fields@[i as int].0@) implies #[trigger]
                has_key(post, x) by {
                if has_key(pre, x) {
                    let k = choose|k: int| 0 <= k < pre.len() && (#[trigger] pre[k]).0@ == x;
                    assert(post[k].0@ == x);
                } else {
                    assert(post[i as int].0@ == x);
                }
            }
        }
        i = i + 1;
    }
    proof {
        assert(fields@.take(fields@.len() as int) =~= fields@);
    }
    hs
}

/// The value of the first field named `key`, searching from index `i`.
pub open spec fn lookup_from(fields: Seq<(String, RawValue)>, key: Seq<char>, i: int) -> Option<
    RawValue,
>
    decreases fields.len() - i,
{
    if i < 0 || i >= fields.len() {
        Option::None
    } else if fields[i].0@ == key {
        Option::Some(fields[i].1)
    } else {
        lookup_from(fields, key, i + 1)
    }
}

/// The value of the first field named `key`, if any.
pub open spec fn record_lookup(fields: Seq<(String, RawValue)>, key: Seq<char>) -> Option<
    RawValue,
> {
    lookup_from(fields, key, 0)
}

/// The canonical cell a record yields for a column: the decoded first field
/// of that name, or the empty string when the record has no such field.
pub open spec fn cell_rep(fields: Seq<(String, RawValue)>, key: Seq<char>) -> Seq<char> {
    match record_lookup(fields, key) {
        Option::Some(v) => decode_rep(v),
        Option::None => Seq::empty(),
    }
}

/// Decodes the cell a record yields for one column.
pub fn decode_field(fields: &Vec<(String, RawValue)>, key: &str) -> (r: String)
    ensures
        r@ == cell_rep(fields@, key@),
{
    let mut i: usize = 0;
    while i < fields.len()
        invariant
            i <= fields@.len(),
            record_lookup(fields@, key@) == lookup_from(fields@, key@, i as int),
        decreases fields@.len() - i,
    {
        let hit = str_eq(fields[i].0.as_str(), key);
        if hit {
            return decode_value(&fields[i].1);
        }
        i = i + 1;
    }
    String::new()
}

/// Header stability: a strictly sorted header list is determined by its
/// membership alone. Two records with the same field set therefore derive
/// the same headers, whichever of them happens to come first.
pub proof fn lemma_sorted_headers_deterministic(hs1: Seq<String>, hs2: Seq<String>)
    requires
        strictly_sorted(hs1),
        strictly_sorted(hs2),
        forall|x: Seq<char>| has_header(hs1, x) <==> has_header(hs2, x),
    ensures
        hs1.len() == hs2.len(),
        forall|i: int| 0 <= i < hs1.len() ==> (#[trigger] hs1[i])@ == hs2[i]@,
    decreases hs1.len(),
{
    if hs1.len() == 0 {
        if hs2.len() > 0 {
            assert(has_header(hs2, hs2[0]@));
            assert(false);
        }
    } else if hs2.len() == 0 {
        assert(has_header(hs1, hs1[0]@));
        assert(false);
    } else {
        // the heads are each list's least member, so they agree
        assert(has_header(hs1, hs1[0]@));
        let k2 = choose|k: int| 0 <= k < hs2.len() && (#[trigger] hs2[k])@ == hs1[0]@;
        assert(has_header(hs2, hs2[0]@));
        let k1 = choose|k: int| 0 <= k < hs1.len() && (#[trigger] hs1[k])@ == hs2[0]@;
        if k2 > 0 {
            assert(lex_lt(hs2[0]@, hs2[k2]@));
        }
        if k1 > 0 {
            assert(lex_lt(hs1[0]@, hs1[k1]@));
        }
        if hs1[0]@ != hs2[0]@ {
            lemma_lex_antisym(hs1[0]@, hs2[0]@);
        }
        assert(hs1[0]@ == hs2[0]@);
        let t1 = hs1.drop_first();
        let t2 = hs2.drop_first();
        assert(strictly_sorted(t1)) by {
            assert forall|i: int, j: int| 0 <= i < j < t1.len() implies lex_lt(
                (#[trigger] t1[i])@,
                (#[trigger] t1[j])@,
            ) by {
                assert(t1[i] == hs1[i + 1]);
                assert(t1[j] == hs1[j + 1]);
            }
        }
        assert(strictly_sorted(t2)) by {
            assert forall|i: int, j: int| 0 <= i < j < t2.len() implies lex_lt(
                (#[trigger] t2[i])@,
                (#[trigger] t2[j])@,
            ) by {
                assert(t2[i] == hs2[i + 1]);
                assert(t2[j] == hs2[j + 1]);
            }
        }
        assert forall|x: Seq<char>| has_header(t1, x) <==> has_header(t2, x) by {
            lemma_tail_membership(hs1, hs2, x);
        }
        lemma_sorted_headers_deterministic(t1, t2);
        assert forall|i: int| 0 <= i < hs1.len() implies (#[trigger] hs1[i])@ == hs2[i]@ by {
            if i > 0 {
                assert(t1[i - 1]@ == t2[i - 1]@);
            }
        }
    }
}

/// In two strictly sorted lists with equal heads and the same membership,
/// membership of the tails agrees as well.
proof fn lemma_tail_membership(hs1: Seq<String>, hs2: Seq<String>, x: Seq<char>)
    requires
        strictly_sorted(hs1),
        strictly_sorted(hs2),
        hs1.len() > 0,
        hs2.len() > 0,
        hs1[0]@ == hs2[0]@,
        forall|y: Seq<char>| has_header(hs1, y) <==> has_header(hs2, y),
    ensures
        has_header(hs1.drop_first(), x) <==> has_header(hs2.drop_first(), x),
{
    let t1 = hs1.drop_first();
    let t2 = hs2.drop_first();
    if has_header(t1, x) {
        let m = choose|m: int| 0 <= m < t1.len() && (#[trigger] t1[m])@ == x;
        assert(hs1[m + 1]@ == x);
        assert(lex_lt(hs1[0]@, hs1[m + 1]@));
        assert(has_header(hs1, x));
        let k = choose|k: int| 0 <= k < hs2.len() && (#[trigger] hs2[k])@ == x;
        if k == 0 {
            // x would equal the shared head, below itself in hs1: impossible
            assert(lex_lt(x, x));
            assert(false);
        }
        assert(t2[k - 1]@ == x);
    }
    if has_header(t2, x) {
        let m = choose|m: int| 0 <= m < t2.len() && (#[trigger] t2[m])@ == x;
        assert(hs2[m + 1]@ == x);
        assert(lex_lt(hs2[0]@, hs2[m + 1]@));
        assert(has_header(hs2, x));
        let k = choose|k: int| 0 <= k < hs1.len() && (#[trigger] hs1[k])@ == x;
        if k == 0 {
            assert(lex_lt(x, x));
            assert(false);
        }
        assert(t1[k - 1]@ == x);
    }
}

/// Builds one canonical row of a schemaless table: the record read through
/// the fixed header set, field by field.
fn build_row(fields: &Vec<(String, RawValue)>, headers: &Vec<String>) -> (row: Vec<String>)
    ensures
        row@.len() == headers@.len(),
        forall|j: int| 0 <= j < headers@.len() ==> (#[trigger] row@[j])@ == cell_rep(
            fields@,
            headers@[j]@,
        ),
{
    let mut row: Vec<String> = Vec::new();
    let mut j: usize = 0;
    while j < headers.len()
        invariant
            j <= headers@.len(),
            row@.len() == j,
            forall|k: int| 0 <= k < j ==> (#[trigger] row@[k])@ == cell_rep(
                fields@,
                headers@[k]@,
            ),
        decreases headers@.len() - j,
    {
        row.push(decode_field(fields, headers[j].as_str()));
        j = j + 1;
    }
    row
}

/// Normalizes a schemaless source: headers are the first record's field
/// names, sorted; every record is read through that fixed header set, so
/// fields absent from the first record never reach the output.
pub fn normalize_records(records: &Vec<Vec<(String, RawValue)>>) -> (t: ExtractedData)
    ensures
        t.wf(),
        records@.len() == 0 ==> t.headers@.len() == 0,
        records@.len() > 0 ==> strictly_sorted(t.headers@) && (forall|x: Seq<char>| #[trigger]
            has_header(t.headers@, x) <==> has_key(records@[0]@, x)),
        t.rows@.len() == records@.len(),
        forall|i: int, j: int|
            0 <= i < records@.len() && 0 <= j < t.headers@.len() ==> t.spec_cell(i, j)
                == cell_rep((#[trigger] records@[i])@, (#[trigger] t.headers@[j])@),
{
    let headers: Vec<String> = if records.len() == 0 {
        Vec::new()
    } else {
        derive_headers(&records[0])
    };
    let mut rows: Vec<Vec<String>> = Vec::new();
    let mut i: usize = 0;
    while i < records.len()
        invariant
            i <= records@.len(),
            rows@.len() == i,
            forall|p: int, j: int|
                0 <= p < i && 0 <= j < headers@.len() ==> ((#[trigger] rows@[p])@[j])@
                    == cell_rep(records@[p]@, (#[trigger] headers@[j])@),
            forall|p: int| 0 <= p < i ==> (#[trigger] rows@[p])@.len() == headers@.len(),
        decreases records@.len() - i,
    {
        rows.push(build_row(&records[i], &headers));
        i = i + 1;
    }
    ExtractedData { headers, rows }
}

/// The cell a positional raw row yields for column `j`: the decoded value
/// when the row reaches that far, the empty string when it does not.
pub open spec fn matrix_cell(row: Seq<RawValue>, j: int) -> Seq<char> {
    if 0 <= j < row.len() {
        decode_rep(row[j])
    } else {
        Seq::empty()
    }
}

/// Normalizes a source with authoritative column metadata: headers are
/// taken verbatim and in order, each raw row is decoded positionally, and
/// every row is brought to exactly the header arity — short rows are padded
/// with empty cells, surplus cells are dropped.
pub fn normalize_matrix(headers: Vec<String>, raw_rows: &Vec<Vec<RawValue>>) -> (t: ExtractedData)
    ensures
        t.wf(),
        t.headers@ == headers@,
        t.rows@.len() == raw_rows@.len(),
        forall|i: int, j: int|
            0 <= i < raw_rows@.len() && 0 <= j < headers@.len() ==> #[trigger] t.spec_cell(i, j)
                == matrix_cell(raw_rows@[i]@, j),
{
    let mut rows: Vec<Vec<String>> = Vec::new();
    let mut i: usize = 0;
    while i < raw_rows.len()
        invariant
            i <= raw_rows@.len(),
            rows@.len() == i,
            forall|p: int, j: int|
                0 <= p < i && 0 <= j < headers@.len() ==> (rows@[p]@[j])@ == #[trigger] matrix_cell(
                    raw_rows@[p]@,
                    j,
                ),
            forall|p: int| 0 <= p < i ==> (#[trigger] rows@[p])@.len() == headers@.len(),
        decreases raw_rows@.len() - i,
    {
        let raw_row = &raw_rows[i];
        let mut row: Vec<String> = Vec::new();
        let mut j: usize = 0;
        while j < headers.len()
            invariant
                j <= headers@.len(),
                row@.len() == j,
                forall|k: int| 0 <= k < j ==> ((#[trigger] row@[k]))@ == matrix_cell(
                    raw_row@,
                    k,
                ),
            decreases headers@.len() - j,
        {
            if j < raw_row.len() {
                row.push(decode_value(&raw_row[j]));
            } else {
                row.push(String::new());
            }
            j = j + 1;
        }
        rows.push(row);
        i = i + 1;
    }
    ExtractedData { headers, rows }
}

/// Builds the fixed two-column table of a pure key-value source: headers
/// `Key` and `Value`, one row per pair — or the empty table when the source
/// yielded no pairs at all.
pub fn kv_table(pairs: &Vec<(String, String)>) -> (t: ExtractedData)
    ensures
        t.wf(),
        pairs@.len() == 0 ==> t.headers@.len() == 0 && t.rows@.len() == 0,
        pairs@.len() > 0 ==> t.headers@.len() == 2 && t.headers@[0]@ == "Key"@
            && t.headers@[1]@ == "Value"@,
        pairs@.len() > 0 ==> t.rows@.len() == pairs@.len() && (forall|i: int|
            0 <= i < pairs@.len() ==> t.spec_cell(i, 0) == (#[trigger] pairs@[i]).0@
                && t.spec_cell(i, 1) == pairs@[i].1@),
{
    if pairs.len() == 0 {
        return ExtractedData::new();
    }
    let mut headers: Vec<String> = Vec::new();
    headers.push(String::from_str("Key"));
    headers.push(String::from_str("Value"));
    let mut rows: Vec<Vec<String>> = Vec::new();
    let mut i: usize = 0;
    while i < pairs.len()
        invariant
            i <= pairs@.len(),
            rows@.len() == i,
            forall|p: int| 0 <= p < i ==> (#[trigger] rows@[p])@.len() == 2,
            forall|p: int|
                0 <= p < i ==> ((#[trigger] rows@[p])@[0])@ == pairs@[p].0@ && (rows@[p]@[1])@
                    == pairs@[p].1@,
        decreases pairs@.len() - i,
    {
        let mut row: Vec<String> = Vec::new();
        row.push(pairs[i].0.clone());
        row.push(pairs[i].1.clone());
        rows.push(row);
        i = i + 1;
    }
    ExtractedData { headers, rows }
}

} // verus!
