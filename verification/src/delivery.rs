//! The batch delivery pipeline: pre-flight validation, partitioning into
//! size-bounded batches, record shaping, and partial-failure accounting.
//!
//! All decisions live here, verified; the transport that carries a request
//! and brings back a reply is the caller's, outside the core.

use vstd::prelude::*;
use vstd::arithmetic::div_mod::lemma_fundamental_div_mod_converse;
use crate::order::str_eq;
use crate::table::ExtractedData;

verus! {

/// The user-supplied mapping from canonical column name to remote field
/// identifier. Keys need not cover all headers; the first entry for a name
/// wins.
pub struct FieldMap {
    pub entries: Vec<(String, String)>,
}

/// The field identifier of the first entry named `key`, searching from `i`.
pub open spec fn fm_lookup_from(entries: Seq<(String, String)>, key: Seq<char>, i: int) -> Option<
    Seq<char>,
>
    decreases entries.len() - i,
{
    if i < 0 || i >= entries.len() {
        Option::None
    } else if entries[i].0@ == key {
        Option::Some(entries[i].1@)
    } else {
        fm_lookup_from(entries, key, i + 1)
    }
}

impl FieldMap {
    /// The field identifier this map assigns to a column name, if any.
    pub open spec fn spec_lookup(self, key: Seq<char>) -> Option<Seq<char>> {
        fm_lookup_from(self.entries@, key, 0)
    }

    /// Whether this map covers a column name.
    pub open spec fn maps(self, key: Seq<char>) -> bool {
        self.spec_lookup(key) is Some
    }

    /// An empty map.
    pub fn new() -> (m: FieldMap)
        ensures
            m.entries@.len() == 0,
    {
        FieldMap { entries: Vec::new() }
    }

    /// Appends one column-to-field entry.
    pub fn add(&mut self, column: String, field_id: String)
        ensures
            final(self).entries@ == old(self).entries@.push((column, field_id)),
    {
        self.entries.push((column, field_id));
    }

    /// Looks a column name up.
    pub fn lookup(&self, key: &str) -> (r: Option<String>)
        ensures
            r is Some <==> self.maps(key@),
            r matches Some(f) ==> self.spec_lookup(key@) == Option::Some(f@),
    {
        let mut i: usize = 0;
        while i < self.entries.len()
            invariant
                i <= self.entries@.len(),
                self.spec_lookup(key@) == fm_lookup_from(self.entries@, key@, i as int),
            decreases self.entries@.len() - i,
        {
            let hit = str_eq(self.entries[i].0.as_str(), key);
            if hit {
                return Option::Some(self.entries[i].1.clone());
            }
            i = i + 1;
        }
        Option::None
    }
}

/// The recommended batch size when the caller has no reason for another.
pub const DEFAULT_BATCH_SIZE: usize = 1000;

/// The recommended pause between batch requests, in milliseconds; skipped
/// after the final batch. The caller's transport loop applies it.
pub const BATCH_PACING_MS: u64 = 200;

/// Why a delivery was refused before any request was made.
#[derive(Debug, PartialEq, Eq, Clone, Copy, Structural)]
pub enum DeliveryError {
    /// The table has rows but no headers: no column can be mapped.
    NoHeaders,
    /// The field map covers none of the table's headers: nothing to send.
    NoMappedColumns,
}

/// Number of batches a row count splits into: the ceiling of `n / b`.
pub open spec fn ceil_div(n: int, b: int) -> int {
    (n + b - 1) / b
}

/// Where batch `k` starts.
pub open spec fn batch_start(k: int, b: int) -> int {
    k * b
}

/// Where batch `k` ends: one past its last row.
pub open spec fn batch_end(k: int, b: int, n: int) -> int {
    if (k + 1) * b <= n {
        (k + 1) * b
    } else {
        n
    }
}

/// Splits `total` rows into contiguous, order-preserving batches of at most
/// `batch_size` rows: batch `k` holds rows `[k*B, min((k+1)*B, total))`.
/// There are exactly `ceil(total/B)` batches; none is empty; all but the
/// last are full; consecutive batches meet with no gap and no overlap.
pub fn partition_batches(total: usize, batch_size: usize) -> (batches: Vec<(usize, usize)>)
    requires
        batch_size >= 1,
    ensures
        batches@.len() == ceil_div(total as int, batch_size as int),
        forall|k: int|
            0 <= k < batches@.len() ==> (#[trigger] batches@[k]).0 as int == batch_start(
                k,
                batch_size as int,
            ) && batches@[k].1 as int == batch_end(k, batch_size as int, total as int),
        forall|k: int| 0 <= k < batches@.len() ==> (#[trigger] batches@[k]).0 < batches@[k].1,
        forall|k: int|
            0 <= k < batches@.len() ==> (#[trigger] batches@[k]).1 - batches@[k].0 <= batch_size,
        forall|k: int|
            0 <= k < batches@.len() - 1 ==> (#[trigger] batches@[k]).1 - batches@[k].0
                == batch_size,
        forall|k: int|
            0 <= k < batches@.len() - 1 ==> (#[trigger] batches@[k]).1 == batches@[k + 1].0,
        batches@.len() > 0 ==> batches@[0].0 == 0 && batches@[batches@.len() - 1].1 == total,
{
    let ghost n = total as int;
    let ghost b = batch_size as int;
    let mut batches: Vec<(usize, usize)> = Vec::new();
    let mut start: usize = 0;
    proof {
        assert(batches@.len() * b == 0);
    }
    while start < total
        invariant
            batch_size >= 1,
            n == total as int,
            b == batch_size as int,
            start as int == if batches@.len() * b <= n {
                batches@.len() * b
            } else {
                n
            },
            batches@.len() > 0 ==> (batches@.len() - 1) * b < n,
            forall|k: int|
                0 <= k < batches@.len() ==> (#[trigger] batches@[k]).0 as int == batch_start(k, b)
                    && batches@[k].1 as int == batch_end(k, b, n),
            forall|k: int|
                0 <= k < batches@.len() ==> (#[trigger] batches@[k]).0 < batches@[k].1,
            forall|k: int|
                0 <= k < batches@.len() ==> (#[trigger] batches@[k]).1 - batches@[k].0
                    <= batch_size,
            forall|k: int|
                0 <= k < batches@.len() - 1 ==> (#[trigger] batches@[k]).1 - batches@[k].0
                    == batch_size,
            forall|k: int|
                0 <= k < batches@.len() - 1 ==> (#[trigger] batches@[k]).1 == batches@[k + 1].0,
            batches@.len() > 0 ==> batches@[0].0 == 0,
        decreases n - start,
    {
        let ghost c = batches@.len() as int;
        let ghost pre = batches@;
        proof {
            assert((c + 1) * b == c * b + b) by (nonlinear_arith);
            assert(c * b == start as int);
        }
        let end: usize = if batch_size <= total - start {
            start + batch_size
        } else {
            total
        };
        batches.push((start, end));
        let ghost s0 = start as int;
        start = end;
        proof {
            let v = batches@;
            assert(v.len() == c + 1);
            assert(forall|k: int| 0 <= k < c ==> v[k] == pre[k]);
            assert(v[c] == (s0 as usize, end));
            assert(v[c].0 as int == batch_start(c, b));
            assert(v[c].1 as int == batch_end(c, b, n));
            if c == 0 {
                assert(0 * b == 0);
                assert(v[0].0 == 0);
            }
            if c > 0 {
                // the batch pushed before this one was full: the loop only
                // went on because its end, c*b, still lay short of n
                assert(v[c - 1].1 as int == batch_end(c - 1, b, n));
                assert(c * b - (c - 1) * b == b) by (nonlinear_arith);
                assert(batch_end(c - 1, b, n) == c * b);
                assert(v[c - 1].1 - v[c - 1].0 == batch_size);
            }
        }
    }
    proof {
        let c = batches@.len() as int;
        if c == 0 {
            assert(n == 0);
            lemma_fundamental_div_mod_converse(n + b - 1, b, 0, b - 1);
        } else {
            assert(c * b >= n);
            assert((c - 1) * b < n);
            let x = n + b - 1;
            let r = x - c * b;
            assert((c - 1) * b == c * b - b) by (nonlinear_arith);
            assert(0 <= r < b);
            assert(x == c * b + r);
            lemma_fundamental_div_mod_converse(x, b, c, r);
        }
    }
    batches
}

/// A validated delivery plan: which columns go out under which field
/// identifiers, which are dropped, and how the rows split into batches.
pub struct DeliveryPlan {
    pub batch_size: usize,
    pub total_rows: usize,
    /// Header index and remote field identifier of every mapped column,
    /// in header order.
    pub mapped: Vec<(usize, String)>,
    /// Header index of every column the field map does not cover, in header
    /// order; each is dropped from outgoing records under one warning.
    pub unmapped: Vec<usize>,
    /// Row ranges `[start, end)` of the batches, in order.
    pub batches: Vec<(usize, usize)>,
}

impl DeliveryPlan {
    /// The batch structure a valid plan guarantees: exactly
    /// `ceil(total/batch_size)` non-empty, size-bounded batches that tile
    /// `[0, total)` in order.
    pub open spec fn wf(self) -> bool {
        &&& self.batch_size >= 1
        &&& self.batches@.len() == ceil_div(self.total_rows as int, self.batch_size as int)
        &&& forall|k: int|
            0 <= k < self.batches@.len() ==> (#[trigger] self.batches@[k]).0 < self.batches@[k].1
                <= self.total_rows
        &&& forall|k: int|
            0 <= k < self.batches@.len() ==> (#[trigger] self.batches@[k]).1 - self.batches@[k].0
                <= self.batch_size
        &&& forall|k: int|
            0 <= k < self.batches@.len() - 1 ==> (#[trigger] self.batches@[k]).1 == self.batches@[k
                + 1].0
        &&& (self.batches@.len() > 0 ==> self.batches@[0].0 == 0
            && self.batches@[self.batches@.len() - 1].1 == self.total_rows)
    }
}

/// Pre-flight validation and planning, before any request is made.
///
/// A table with zero rows is a valid no-op: zero batches, nothing to send.
/// Rows without headers are fatal, as is a field map that covers no header
/// at all. Headers the map does not cover are only dropped, each recorded
/// once in the plan's warning list.
pub fn plan_delivery(table: &ExtractedData, fmap: &FieldMap, batch_size: usize) -> (r: Result<
    DeliveryPlan,
    DeliveryError,
>)
    requires
        batch_size >= 1,
    ensures
        (table.rows@.len() > 0 && table.headers@.len() == 0) <==> (r matches Err(e) && e
            == DeliveryError::NoHeaders),
        (table.rows@.len() > 0 && table.headers@.len() > 0 && !(exists|j: int|
            0 <= j < table.headers@.len() && fmap.maps((#[trigger] table.headers@[j])@))) <==> (
        r matches Err(e) && e == DeliveryError::NoMappedColumns),
        r is Ok <==> (table.rows@.len() == 0 || (table.headers@.len() > 0 && exists|j: int|
            0 <= j < table.headers@.len() && fmap.maps((#[trigger] table.headers@[j])@))),
        r matches Ok(plan) ==> plan.wf() && plan.batch_size == batch_size && plan.total_rows
            == table.rows@.len(),
        r matches Ok(plan) ==> (forall|k: int|
            0 <= k < plan.batches@.len() ==> (#[trigger] plan.batches@[k]).0 as int == batch_start(
                k,
                batch_size as int,
            ) && plan.batches@[k].1 as int == batch_end(
                k,
                batch_size as int,
                table.rows@.len() as int,
            )),
        r matches Ok(plan) ==> (forall|k: int|
            0 <= k < plan.mapped@.len() ==> (#[trigger] plan.mapped@[k]).0 < table.headers@.len()
                && fmap.spec_lookup(table.headers@[plan.mapped@[k].0 as int]@) == Option::Some(
                plan.mapped@[k].1@,
            )),
        r matches Ok(plan) ==> (forall|k1: int, k2: int|
            0 <= k1 < k2 < plan.mapped@.len() ==> (#[trigger] plan.mapped@[k1]).0 < (
            #[trigger] plan.mapped@[k2]).0),
        r matches Ok(plan) ==> (forall|j: int|
            0 <= j < table.headers@.len() ==> (fmap.maps((#[trigger] table.headers@[j])@) <==> (
            exists|k: int| 0 <= k < plan.mapped@.len() && (#[trigger] plan.mapped@[k]).0 == j))),
        r matches Ok(plan) ==> (forall|k: int|
            0 <= k < plan.unmapped@.len() ==> (#[trigger] plan.unmapped@[k]) < table.headers@.len()
                && !fmap.maps(table.headers@[plan.unmapped@[k] as int]@)),
        r matches Ok(plan) ==> (forall|k1: int, k2: int|
            0 <= k1 < k2 < plan.unmapped@.len() ==> (#[trigger] plan.unmapped@[k1]) < (
            #[trigger] plan.unmapped@[k2])),
        r matches Ok(plan) ==> (forall|j: int|
            0 <= j < table.headers@.len() ==> (!fmap.maps((#[trigger] table.headers@[j])@) <==> (
            exists|k: int| 0 <= k < plan.unmapped@.len() && (#[trigger] plan.unmapped@[k]) == j))),
{
    let n_rows = table.rows.len();
    let n_cols = table.headers.len();
    if n_rows > 0 && n_cols == 0 {
        return Result::Err(DeliveryError::NoHeaders);
    }
    let mut mapped: Vec<(usize, String)> = Vec::new();
    let mut unmapped: Vec<usize> = Vec::new();
    let mut j: usize = 0;
    while j < n_cols
        invariant
            n_cols == table.headers@.len(),
            j <= n_cols,
            forall|k: int|
                0 <= k < mapped@.len() ==> (#[trigger] mapped@[k]).0 < j && fmap.spec_lookup(
                    table.headers@[mapped@[k].0 as int]@,
                ) == Option::Some(mapped@[k].1@),
            forall|k1: int, k2: int|
                0 <= k1 < k2 < mapped@.len() ==> (#[trigger] mapped@[k1]).0 < (
                #[trigger] mapped@[k2]).0,
            forall|jj: int|
                0 <= jj < j ==> (fmap.maps((#[trigger] table.headers@[jj])@) <==> (exists|k: int|
                    0 <= k < mapped@.len() && (#[trigger] mapped@[k]).0 == jj)),
            forall|k: int|
                0 <= k < unmapped@.len() ==> (#[trigger] unmapped@[k]) < j && !fmap.maps(
                    table.headers@[unmapped@[k] as int]@,
                ),
            forall|k1: int, k2: int|
                0 <= k1 < k2 < unmapped@.len() ==> (#[trigger] unmapped@[k1]) < (
                #[trigger] unmapped@[k2]),
            forall|jj: int|
                0 <= jj < j ==> (!fmap.maps((#[trigger] table.headers@[jj])@) <==> (exists|k: int|
                    0 <= k < unmapped@.len() && (#[trigger] unmapped@[k]) == jj)),
        decreases n_cols - j,
    {
        match fmap.lookup(table.headers[j].as_str()) {
            Option::Some(f) => {
                let ghost pre = mapped@;
                mapped.push((j, f));
                proof {
                    assert(mapped@[pre.len() as int].0 == j);
                    assert(forall|k: int| 0 <= k < pre.len() ==> mapped@[k] == pre[k]);
                }
            },
            Option::None => {
                let ghost pre = unmapped@;
                unmapped.push(j);
                proof {
                    assert(unmapped@[pre.len() as int] == j);
                    assert(forall|k: int| 0 <= k < pre.len() ==> unmapped@[k] == pre[k]);
                }
            },
        }
        j = j + 1;
    }
    if n_rows > 0 && mapped.len() == 0 {
        proof {
            assert forall|jj: int|
                0 <= jj < table.headers@.len() implies !fmap.maps(
                (#[trigger] table.headers@[jj])@,
            ) by {
                if fmap.maps(table.headers@[jj]@) {
                    let k = choose|k: int|
                        0 <= k < mapped@.len() && (#[trigger] mapped@[k]).0 == jj;
                    assert(false);
                }
            }
        }
        return Result::Err(DeliveryError::NoMappedColumns);
    }
    let batches = partition_batches(n_rows, batch_size);
    let ghost um = unmapped@;
    let ghost mp = mapped@;
    let plan = DeliveryPlan { batch_size, total_rows: n_rows, mapped, unmapped, batches };
    proof {
        if table.rows@.len() > 0 {
            assert(plan.mapped@.len() > 0);
            assert(fmap.maps(table.headers@[plan.mapped@[0].0 as int]@));
        }
        assert(plan.unmapped@ == um);
        assert(plan.mapped@ == mp);
        assert forall|jj: int| 0 <= jj < table.headers@.len() implies (!fmap.maps(
            (#[trigger] table.headers@[jj])@,
        ) <==> (exists|k: int|
            0 <= k < plan.unmapped@.len() && (#[trigger] plan.unmapped@[k]) == jj)) by {
            if !fmap.maps(table.headers@[jj]@) {
                let k0 = choose|k: int| 0 <= k < um.len() && (#[trigger] um[k]) == jj;
                assert(plan.unmapped@[k0] == jj);
            }
            if exists|k: int| 0 <= k < plan.unmapped@.len() && (#[trigger] plan.unmapped@[k])
                == jj {
                let k0 = choose|k: int|
                    0 <= k < plan.unmapped@.len() && (#[trigger] plan.unmapped@[k]) == jj;
                assert(um[k0] == jj);
            }
        }
        assert forall|jj: int| 0 <= jj < table.headers@.len() implies (fmap.maps(
            (#[trigger] table.headers@[jj])@,
        ) <==> (exists|k: int|
            0 <= k < plan.mapped@.len() && (#[trigger] plan.mapped@[k]).0 == jj)) by {
            if fmap.maps(table.headers@[jj]@) {
                let k0 = choose|k: int| 0 <= k < mp.len() && (#[trigger] mp[k]).0 == jj;
                assert(plan.mapped@[k0].0 == jj);
            }
            if exists|k: int| 0 <= k < plan.mapped@.len() && (#[trigger] plan.mapped@[k]).0
                == jj {
                let k0 = choose|k: int|
                    0 <= k < plan.mapped@.len() && (#[trigger] plan.mapped@[k]).0 == jj;
                assert(mp[k0].0 == jj);
            }
        }
    }
    Result::Ok(plan)
}

/// Shapes one canonical row into a remote record: the mapped columns only,
/// each cell under its remote field identifier, in header order. The record's
/// key set is exactly the mapped header set — unmapped columns never appear.
pub fn shape_record(row: &Vec<String>, mapped: &Vec<(usize, String)>) -> (rec: Vec<(
    String,
    String,
)>)
    requires
        forall|k: int| 0 <= k < mapped@.len() ==> (#[trigger] mapped@[k]).0 < row@.len(),
    ensures
        rec@.len() == mapped@.len(),
        forall|k: int|
            0 <= k < mapped@.len() ==> (#[trigger] rec@[k]).0@ == mapped@[k].1@ && rec@[k].1@
                == row@[mapped@[k].0 as int]@,
{
    let mut rec: Vec<(String, String)> = Vec::new();
    let mut k: usize = 0;
    while k < mapped.len()
        invariant
            forall|q: int| 0 <= q < mapped@.len() ==> (#[trigger] mapped@[q]).0 < row@.len(),
            k <= mapped@.len(),
            rec@.len() == k,
            forall|q: int|
                0 <= q < k ==> (#[trigger] rec@[q]).0@ == mapped@[q].1@ && rec@[q].1@
                    == row@[mapped@[q].0 as int]@,
        decreases mapped@.len() - k,
    {
        rec.push((mapped[k].1.clone(), row[mapped[k].0].clone()));
        k = k + 1;
    }
    rec
}

/// Shapes the rows of one batch, `[start, end)`, into remote records.
pub fn shape_batch(table: &ExtractedData, mapped: &Vec<(usize, String)>, start: usize, end: usize)
    -> (recs: Vec<Vec<(String, String)>>)
    requires
        table.wf(),
        start <= end <= table.rows@.len(),
        forall|k: int| 0 <= k < mapped@.len() ==> (#[trigger] mapped@[k]).0 < table.headers@.len(),
    ensures
        recs@.len() == end - start,
        forall|i: int, k: int|
            0 <= i < recs@.len() && 0 <= k < mapped@.len() ==> ((#[trigger] recs@[i])@[k]).0@
                == (#[trigger] mapped@[k]).1@ && (recs@[i]@[k]).1@ == table.spec_cell(
                start + i,
                mapped@[k].0 as int,
            ),
        forall|i: int| 0 <= i < recs@.len() ==> (#[trigger] recs@[i])@.len() == mapped@.len(),
{
    let mut recs: Vec<Vec<(String, String)>> = Vec::new();
    let mut i: usize = start;
    while i < end
        invariant
            table.wf(),
            start <= i <= end <= table.rows@.len(),
            forall|k: int|
                0 <= k < mapped@.len() ==> (#[trigger] mapped@[k]).0 < table.headers@.len(),
            recs@.len() == i - start,
            forall|p: int, k: int|
                0 <= p < recs@.len() && 0 <= k < mapped@.len() ==> ((#[trigger] recs@[p])@[k]).0@
                    == (#[trigger] mapped@[k]).1@ && (recs@[p]@[k]).1@ == table.spec_cell(
                    start + p,
                    mapped@[k].0 as int,
                ),
            forall|p: int| 0 <= p < recs@.len() ==> (#[trigger] recs@[p])@.len() == mapped@.len(),
        decreases end - i,
    {
        recs.push(shape_record(&table.rows[i], mapped));
        i = i + 1;
    }
    recs
}

/// Zero-row short-circuit: a valid plan over an empty table has no batches
/// at all, so a session over it is done before any request is due.
pub proof fn lemma_zero_rows_zero_batches(plan: DeliveryPlan)
    requires
        plan.wf(),
        plan.total_rows == 0,
    ensures
        plan.batches@.len() == 0,
{
    let b = plan.batch_size as int;
    lemma_fundamental_div_mod_converse(b - 1, b, 0, b - 1);
}

/// The size of the last batch: `total % batch_size` when that is not zero
/// — the one batch that may come up short — and a full `batch_size` when
/// the rows divide evenly.
pub proof fn lemma_last_batch_size(n: int, b: int)
    requires
        b >= 1,
        n > 0,
    ensures
        batch_end(ceil_div(n, b) - 1, b, n) - batch_start(ceil_div(n, b) - 1, b) == if n % b == 0 {
            b
        } else {
            n % b
        },
{
    let q = n / b;
    let r = n % b;
    vstd::arithmetic::div_mod::lemma_fundamental_div_mod(n, b);
    vstd::arithmetic::div_mod::lemma_mod_division_less_than_divisor(n, b);
    assert(q * b == b * q) by (nonlinear_arith);
    assert((q + 1) * b == q * b + b) by (nonlinear_arith);
    assert((q - 1) * b == q * b - b) by (nonlinear_arith);
    if r == 0 {
        // n == q*b exactly: ceil is q, and the last batch spans a full b
        lemma_fundamental_div_mod_converse(n + b - 1, b, q, b - 1);
        assert(ceil_div(n, b) == q);
        assert(batch_end(q - 1, b, n) == n);
    } else {
        // n == q*b + r with 0 < r < b: ceil is q + 1, the last batch holds r
        lemma_fundamental_div_mod_converse(n + b - 1, b, q + 1, r - 1);
        assert(ceil_div(n, b) == q + 1);
        assert(batch_end(q, b, n) == n);
    }
}

/// What the transport reports for one batch request.
#[derive(Debug, PartialEq, Eq, Clone, Copy, Structural)]
pub enum BatchReply {
    /// The request never completed: connection refused, timeout. Hard.
    TransportFailed,
    /// The remote answered with a non-success HTTP status. Hard.
    HttpRejected(u16),
    /// HTTP succeeded but the response body signalled an application-level
    /// rejection (or could not be read as one). Soft.
    BodyRejected,
    /// The batch was fully accepted.
    Accepted,
}

/// How one batch ended in the session's ledger.
#[derive(Debug, PartialEq, Eq, Clone, Copy, Structural)]
pub enum BatchStatus {
    /// Accepted in full; its rows count as delivered.
    Delivered,
    /// Rejected at the application level; its rows are not delivered, but
    /// delivery went on.
    SoftFailed,
    /// Failed at transport or HTTP level; delivery stopped here.
    HardFailed,
}

/// The ledger entry a reply earns its batch.
pub open spec fn reply_status(reply: BatchReply) -> BatchStatus {
    match reply {
        BatchReply::TransportFailed => BatchStatus::HardFailed,
        BatchReply::HttpRejected(_) => BatchStatus::HardFailed,
        BatchReply::BodyRejected => BatchStatus::SoftFailed,
        BatchReply::Accepted => BatchStatus::Delivered,
    }
}

/// Whether a reply aborts the remaining delivery.
pub open spec fn reply_is_hard(reply: BatchReply) -> bool {
    reply_status(reply) == BatchStatus::HardFailed
}

/// Classifies a response the transport did bring back.
///
/// A non-success HTTP status is a hard rejection. On HTTP success, the body
/// must carry the success flag set and the expected application status code;
/// anything else — flag missing or false, code missing or different — is a
/// soft, per-batch rejection.
pub fn classify_response(
    http_status: u16,
    success_flag: Option<bool>,
    body_code: Option<i64>,
    expected_code: i64,
) -> (r: BatchReply)
    ensures
        !(200 <= http_status < 300) ==> r == BatchReply::HttpRejected(http_status),
        (200 <= http_status < 300) ==> (r == BatchReply::Accepted <==> success_flag
            == Option::Some(true) && body_code == Option::Some(expected_code)),
        (200 <= http_status < 300) && !(success_flag == Option::Some(true) && body_code
            == Option::Some(expected_code)) ==> r == BatchReply::BodyRejected,
{
    if http_status < 200 || http_status >= 300 {
        return BatchReply::HttpRejected(http_status);
    }
    let flag_ok = match success_flag {
        Option::Some(b) => b,
        Option::None => false,
    };
    let code_ok = match body_code {
        Option::Some(c) => c == expected_code,
        Option::None => false,
    };
    if flag_ok && code_ok {
        BatchReply::Accepted
    } else {
        BatchReply::BodyRejected
    }
}

/// Rows of batch `k`.
pub open spec fn batch_rows(batches: Seq<(usize, usize)>, k: int) -> int {
    batches[k].1 - batches[k].0
}

/// Rows delivered according to a ledger: the sum of the row counts of the
/// batches marked delivered.
pub open spec fn delivered_rows(batches: Seq<(usize, usize)>, ledger: Seq<BatchStatus>) -> int
    decreases ledger.len(),
{
    if ledger.len() == 0 {
        0
    } else {
        delivered_rows(batches, ledger.drop_last()) + if ledger.last() == BatchStatus::Delivered {
            batch_rows(batches, ledger.len() - 1)
        } else {
            0
        }
    }
}

/// One delivery run: which batch goes next, what each attempted batch came
/// to, and how many rows have been delivered so far.
///
/// The caller's loop asks `next_batch`, sends that batch, and hands the
/// reply to `record_reply`; a hard failure halts the session, a soft one
/// only skips the batch's rows.
pub struct DeliverySession {
    pub plan: DeliveryPlan,
    pub cursor: usize,
    pub delivered: usize,
    pub ledger: Vec<BatchStatus>,
    pub halted: bool,
}

impl DeliverySession {
    /// The session's invariant: the ledger covers exactly the attempted
    /// batches and `delivered` is precisely the rows of those marked
    /// delivered.
    pub open spec fn wf(self) -> bool {
        &&& self.plan.wf()
        &&& self.ledger@.len() == self.cursor
        &&& self.cursor <= self.plan.batches@.len()
        &&& self.delivered as int == delivered_rows(self.plan.batches@, self.ledger@)
        &&& self.delivered <= self.plan.total_rows
        &&& (self.cursor > 0 ==> self.delivered as int <= self.plan.batches@[self.cursor - 1].1)
        &&& (!self.halted && self.cursor < self.plan.batches@.len() ==> self.delivered as int
            <= self.plan.batches@[self.cursor as int].0)
    }

    /// Opens a session on a validated plan: nothing attempted yet.
    pub fn start(plan: DeliveryPlan) -> (s: DeliverySession)
        requires
            plan.wf(),
        ensures
            s.wf(),
            s.plan == plan,
            s.cursor == 0,
            s.delivered == 0,
            s.ledger@.len() == 0,
            !s.halted,
    {
        DeliverySession { plan, cursor: 0, delivered: 0, ledger: Vec::new(), halted: false }
    }

    /// The index of the batch to send next, or nothing when the session is
    /// over — all batches attempted, or halted by a hard failure. A plan
    /// with zero rows is over immediately: no request is ever due.
    pub fn next_batch(&self) -> (r: Option<usize>)
        ensures
            r is Some <==> (!self.halted && self.cursor < self.plan.batches@.len()),
            r matches Some(k) ==> k == self.cursor,
    {
        if !self.halted && self.cursor < self.plan.batches.len() {
            Option::Some(self.cursor)
        } else {
            Option::None
        }
    }

    /// Records the transport's reply for the current batch: an accepted
    /// batch adds exactly its row count to `delivered`; a soft-failed batch
    /// adds nothing and delivery goes on; a hard-failed batch adds nothing
    /// and halts the session, preserving what was already delivered.
    #[verifier::rlimit(30)]
    pub fn record_reply(&mut self, reply: BatchReply)
        requires
            old(self).wf(),
            !old(self).halted,
            old(self).cursor < old(self).plan.batches@.len(),
        ensures
            final(self).wf(),
            final(self).plan == old(self).plan,
            final(self).cursor == old(self).cursor + 1,
            final(self).ledger@ == old(self).ledger@.push(reply_status(reply)),
            final(self).halted == reply_is_hard(reply),
            reply == BatchReply::Accepted ==> final(self).delivered == old(self).delivered
                + batch_rows(old(self).plan.batches@, old(self).cursor as int),
            reply != BatchReply::Accepted ==> final(self).delivered == old(self).delivered,
    {
        let k = self.cursor;
        let nb = self.plan.batches.len();
        proof {
            assert(k < nb);
            assert(self.plan.batches@[k as int].0 < self.plan.batches@[k as int].1
                <= self.plan.total_rows);
        }
        match reply {
            BatchReply::Accepted => {
                let size = self.plan.batches[k].1 - self.plan.batches[k].0;
                self.delivered = self.delivered + size;
                self.ledger.push(BatchStatus::Delivered);
            },
            BatchReply::BodyRejected => {
                self.ledger.push(BatchStatus::SoftFailed);
            },
            _ => {
                self.ledger.push(BatchStatus::HardFailed);
                self.halted = true;
            },
        }
        self.cursor = k + 1;
        proof {
            assert(self.ledger@.drop_last() == old(self).ledger@);
            assert(self.ledger@.last() == reply_status(reply));
            if self.cursor < self.plan.batches@.len() {
                assert(self.plan.batches@[k as int].1 == self.plan.batches@[k + 1].0);
            }
        }
    }
}

/// What a delivery came to, for the caller's report: rows extracted and rows
/// actually delivered stay two separate numbers, never one boolean.
///
/// `total_batches` being zero tells "nothing was there to send" apart from
/// "batches were sent and none was accepted"; `completed` is false exactly
/// when a hard failure stopped the run before its last batch.
pub struct DeliverySummary {
    pub total_rows: usize,
    pub delivered: usize,
    pub total_batches: usize,
    pub attempted: usize,
    pub ledger: Vec<BatchStatus>,
    pub completed: bool,
}

impl DeliverySession {
    /// The session's outcome so far.
    pub fn summary(&self) -> (s: DeliverySummary)
        requires
            self.wf(),
        ensures
            s.total_rows == self.plan.total_rows,
            s.delivered == self.delivered,
            s.delivered as int == delivered_rows(self.plan.batches@, self.ledger@),
            s.total_batches == self.plan.batches@.len(),
            s.attempted == self.cursor,
            s.ledger@ == self.ledger@,
            s.completed <==> (!self.halted && self.cursor == self.plan.batches@.len()),
    {
        DeliverySummary {
            total_rows: self.plan.total_rows,
            delivered: self.delivered,
            total_batches: self.plan.batches.len(),
            attempted: self.cursor,
            ledger: self.ledger.clone(),
            completed: !self.halted && self.cursor == self.plan.batches.len(),
        }
    }
}

/// Partial-failure accounting: a batch that fails — softly or hard — costs
/// exactly its own rows and no others. Turning one delivered batch into a
/// failed one in the ledger lowers the delivered count by precisely that
/// batch's row count.
pub proof fn lemma_failed_batch_costs_exactly_its_rows(
    batches: Seq<(usize, usize)>,
    ledger: Seq<BatchStatus>,
    k: int,
    st: BatchStatus,
)
    requires
        0 <= k < ledger.len(),
        ledger[k] == BatchStatus::Delivered,
        st != BatchStatus::Delivered,
    ensures
        delivered_rows(batches, ledger.update(k, st)) == delivered_rows(batches, ledger)
            - batch_rows(batches, k),
    decreases ledger.len(),
{
    let updated = ledger.update(k, st);
    if k == ledger.len() - 1 {
        assert(updated.drop_last() =~= ledger.drop_last());
        assert(updated.last() == st);
    } else {
        assert(updated.drop_last() =~= ledger.drop_last().update(k, st));
        assert(updated.last() == ledger.last());
        lemma_failed_batch_costs_exactly_its_rows(batches, ledger.drop_last(), k, st);
    }
}

} // verus!
