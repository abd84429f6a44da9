//! The in-memory tabular snapshot that queries run against: rows with a
//! millisecond timestamp, a contract tag, and named optional value columns.
//!
//! A snapshot is built once from whatever the storage engine handed over;
//! construction validates column widths and sorts the rows by timestamp, so
//! every query reads from a well-formed, ordered table.

use vstd::prelude::*;
use vstd::string::StrSliceExecFns;
use vstd::multiset::Multiset;

verus! {

broadcast use {vstd::seq_lib::group_to_multiset_ensures, vstd::multiset::group_multiset_axioms};

/// One source row: a millisecond epoch timestamp, a contract identifier,
/// and one optional IEEE-754 bit-pattern value per named column.
///
/// `None` stands for a value that is missing (null) in the source.
#[derive(Clone, Debug)]
pub struct SourceRow {
    /// Milliseconds since the epoch; `None` when the source row has no timestamp.
    pub timestamp_ms: Option<i64>,
    /// Contract identifier; `None` when the source row has no contract.
    pub contract: Option<String>,
    /// One optional value per entry of the table's `field_names`, in order.
    pub fields: Vec<Option<u64>>,
}

/// Ordering on optional timestamps: a missing timestamp sorts first.
pub open spec fn ts_le(a: Option<i64>, b: Option<i64>) -> bool {
    match (a, b) {
        (Option::None, _) => true,
        (Option::Some(x), Option::None) => false,
        (Option::Some(x), Option::Some(y)) => x <= y,
    }
}

/// The rows are in non-decreasing timestamp order.
pub open spec fn rows_sorted(rows: Seq<SourceRow>) -> bool {
    forall|i: int, j: int|
        0 <= i < j < rows.len() ==> ts_le(rows[i].timestamp_ms, rows[j].timestamp_ms)
}

/// Decides whether `a` must come after `b` when sorting by timestamp.
fn ts_after(a: &SourceRow, b: &SourceRow) -> (r: bool)
    ensures
        r == !ts_le(a.timestamp_ms, b.timestamp_ms),
{
    match (a.timestamp_ms, b.timestamp_ms) {
        (Option::None, _) => false,
        (Option::Some(_), Option::None) => true,
        (Option::Some(x), Option::Some(y)) => x > y,
    }
}

/// Two string slices are equal exactly when their character views are.
pub fn str_eq(a: &str, b: &str) -> (r: bool)
    ensures
        r == (a@ == b@),
{
    let la = a.unicode_len();
    let lb = b.unicode_len();
    if la != lb {
        return false;
    }
    let mut i: usize = 0;
    while i < la
        invariant
            la == a@.len(),
            la == b@.len(),
            0 <= i <= la,
            forall|k: int| 0 <= k < i ==> a@[k] == b@[k],
        decreases la - i,
    {
        let ca = a.get_char(i);
        let cb = b.get_char(i);
        if ca != cb {
            return false;
        }
        i = i + 1;
    }
    proof {
        assert(a@ =~= b@);
    }
    true
}

/// Index of the first column whose name reads as `target`, scanning left to
/// right; `None` when no column has that name.
pub open spec fn col_index(names: Seq<String>, target: Seq<char>) -> Option<int>
    decreases names.len(),
{
    if names.len() == 0 {
        None
    } else {
        match col_index(names.drop_last(), target) {
            Some(i) => Some(i),
            None => if names.last()@ == target {
                Some(names.len() - 1)
            } else {
                None
            },
        }
    }
}

/// A found column index is in range, names the target, and nothing before
/// it does.
pub proof fn lemma_col_index_props(names: Seq<String>, target: Seq<char>)
    ensures
        match col_index(names, target) {
            Some(i) => 0 <= i < names.len() && names[i]@ == target && (forall|k: int|
                0 <= k < i ==> names[k]@ != target),
            None => forall|k: int| 0 <= k < names.len() ==> names[k]@ != target,
        },
    decreases names.len(),
{
    if names.len() > 0 {
        lemma_col_index_props(names.drop_last(), target);
        assert forall|k: int| 0 <= k < names.len() - 1 implies (#[trigger] names[k])
            == names.drop_last()[k] by {
            assert(names.drop_last()[k] == names[k]);
        }
        assert(names.last() == names[names.len() - 1]);
    }
}

/// Once a prefix contains a match, longer prefixes report the same index.
proof fn lemma_col_index_prefix(names: Seq<String>, target: Seq<char>, k: int)
    requires
        0 <= k <= names.len(),
        col_index(names.take(k), target) is Some,
    ensures
        col_index(names, target) == col_index(names.take(k), target),
    decreases names.len() - k,
{
    if k < names.len() {
        assert(names.take(k + 1).drop_last() =~= names.take(k));
        lemma_col_index_prefix(names, target, k + 1);
    } else {
        assert(names.take(k) =~= names);
    }
}

/// The tabular snapshot: named value columns over timestamped rows.
#[derive(Clone, Debug)]
pub struct Table {
    /// Names of the value columns, in source order.
    pub field_names: Vec<String>,
    /// The rows, sorted by timestamp after construction.
    pub rows: Vec<SourceRow>,
}

impl Table {
    /// Every row carries exactly one value slot per named column.
    pub open spec fn widths_ok(self) -> bool {
        forall|i: int|
            0 <= i < self.rows@.len() ==> (#[trigger] self.rows@[i]).fields@.len()
                == self.field_names@.len()
    }

    /// Well-formed: widths match and rows are sorted by timestamp.
    pub open spec fn wf(self) -> bool {
        self.widths_ok() && rows_sorted(self.rows@)
    }

    /// Builds a snapshot from raw rows: rejects rows whose width does not
    /// match the column list, and sorts accepted rows by timestamp.
    pub fn new(field_names: Vec<String>, rows: Vec<SourceRow>) -> (r: Option<Table>)
        ensures
            match r {
                Some(t) => {
                    &&& t.wf()
                    &&& t.field_names == field_names
                    &&& t.rows@.to_multiset() == rows@.to_multiset()
                    &&& t.rows@.len() == rows@.len()
                },
                None => exists|i: int|
                    0 <= i < rows@.len() && (#[trigger] rows@[i]).fields@.len()
                        != field_names@.len(),
            },
            r is Some <==> forall|i: int|
                0 <= i < rows@.len() ==> (#[trigger] rows@[i]).fields@.len()
                    == field_names@.len(),
    {
        let width = field_names.len();
        let mut i: usize = 0;
        while i < rows.len()
            invariant
                0 <= i <= rows@.len(),
                width == field_names@.len(),
                forall|k: int| 0 <= k < i ==> (#[trigger] rows@[k]).fields@.len() == width,
            decreases rows@.len() - i,
        {
            if rows[i].fields.len() != width {
                return None;
            }
            i = i + 1;
        }
        let sorted = sort_rows(rows);
        proof {
            assert forall|k: int| 0 <= k < sorted@.len() implies (#[trigger] sorted@[k]).fields@.len()
                == width by {
                sorted@.lemma_index_contains(k);
                assert(sorted@.to_multiset().count(sorted@[k]) > 0);
                assert(rows@.to_multiset().count(sorted@[k]) > 0);
                assert(rows@.contains(sorted@[k]));
                let j = choose|j: int| 0 <= j < rows@.len() && rows@[j] == sorted@[k];
                assert(rows@[j].fields@.len() == width);
            }
        }
        Some(Table { field_names, rows: sorted })
    }

    /// Index of the first value column with the given name, if any.
    pub fn find_field(&self, target: &str) -> (r: Option<usize>)
        ensures
            match r {
                Some(j) => col_index(self.field_names@, target@) == Some(j as int),
                None => col_index(self.field_names@, target@) is None,
            },
    {
        let mut j: usize = 0;
        while j < self.field_names.len()
            invariant
                0 <= j <= self.field_names@.len(),
                col_index(self.field_names@.take(j as int), target@) is None,
            decreases self.field_names@.len() - j,
        {
            proof {
                assert(self.field_names@.take(j as int + 1).drop_last() =~= self.field_names@.take(
                    j as int,
                ));
            }
            if str_eq(self.field_names[j].as_str(), target) {
                proof {
                    lemma_col_index_prefix(self.field_names@, target@, j as int + 1);
                }
                return Some(j);
            }
            j = j + 1;
        }
        proof {
            assert(self.field_names@.take(self.field_names@.len() as int) =~= self.field_names@);
        }
        None
    }
}

/// Sorts rows by timestamp (missing timestamps first), keeping exactly the
/// same collection of rows.
pub fn sort_rows(rows: Vec<SourceRow>) -> (r: Vec<SourceRow>)
    ensures
        rows_sorted(r@),
        r@.to_multiset() == rows@.to_multiset(),
        r@.len() == rows@.len(),
{
    let mut out: Vec<SourceRow> = Vec::new();
    let mut rem = rows;
    let ghost all = rem@.to_multiset();
    while rem.len() > 0
        invariant
            rows_sorted(out@),
            out@.to_multiset().add(rem@.to_multiset()) =~= all,
            out@.len() + rem@.len() == all.len(),
        decreases rem@.len(),
    {
        let ghost rem_before = rem@;
        let row = rem.pop().unwrap();
        proof {
            assert(rem_before =~= rem@.push(row));
        }
        let mut j: usize = out.len();
        while j > 0 && ts_after(&out[j - 1], &row)
            invariant
                0 <= j <= out@.len(),
                rows_sorted(out@),
                forall|k: int|
                    j <= k < out@.len() ==> !ts_le(
                        (#[trigger] out@[k]).timestamp_ms,
                        row.timestamp_ms,
                    ),
            decreases j,
        {
            j = j - 1;
        }
        let ghost out_before = out@;
        out.insert(j, row);
        proof {
            let after = out@;
            assert(after.remove(j as int) =~= out_before);
            assert(after.to_multiset().remove(row) =~= out_before.to_multiset());
            assert(after.contains(row)) by {
                assert(after[j as int] == row);
                after.lemma_index_contains(j as int);
            }
            assert(after.to_multiset() =~= out_before.to_multiset().insert(row));
            assert(after.to_multiset().add(rem@.to_multiset()) =~= all);
            assert forall|a: int, b: int| 0 <= a < b < after.len() implies ts_le(
                after[a].timestamp_ms,
                after[b].timestamp_ms,
            ) by {
                if b == j {
                    assert(after[a] == out_before[a]);
                    assert(ts_le(out_before[j - 1].timestamp_ms, row.timestamp_ms));
                    if a < j - 1 {
                        assert(ts_le(out_before[a].timestamp_ms, out_before[j - 1].timestamp_ms));
                    }
                } else if a == j {
                    assert(after[b] == out_before[b - 1]);
                    assert(!ts_le(out_before[b - 1].timestamp_ms, row.timestamp_ms));
                } else if a < j && b > j {
                    assert(after[a] == out_before[a]);
                    assert(after[b] == out_before[b - 1]);
                } else if b < j {
                    assert(after[a] == out_before[a]);
                    assert(after[b] == out_before[b]);
                } else {
                    assert(after[a] == out_before[a - 1]);
                    assert(after[b] == out_before[b - 1]);
                }
            }
        }
    }
    proof {
        assert(rem@.to_multiset() =~= Multiset::empty());
        assert(out@.to_multiset() =~= all);
    }
    out
}

} // verus!
