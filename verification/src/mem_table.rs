//! A minimal in-memory storage engine offering the merge capability.
//!
//! [`MemTable`] holds rows as vectors of strings under a named schema and
//! implements [`MergeInsert`], so it is both a checked witness that the
//! collaborator contract is implementable and a deterministic target for
//! exercising the merge-insert protocol. Its delete-filter language is a
//! single equality predicate, `column = 'value'`: the filter selects the
//! rows whose value in that column equals the literal. A merge whose join
//! keys or filter the engine cannot interpret is rejected whole: the held
//! rows are unchanged.

use vstd::prelude::*;

use crate::error::Error;
use crate::merge::{
    del_for, matching_rows, merge_inserts, merge_result, merged_existing, replacement_for,
    row_contribution, row_matched, MergeConfig, MergeInsert, MergeInsertBuilder, Row, RowView,
    RowsView,
};
use crate::strings::str_eq;
use crate::table::WriteMode;

verus! {

/// The index of the first column of this name, or `-1` when absent.
pub open spec fn col_index(cols: Seq<Seq<char>>, name: Seq<char>) -> int
    decreases cols.len(),
{
    if cols.len() == 0 {
        -1
    } else if cols.first() == name {
        0
    } else {
        let rest = col_index(cols.drop_first(), name);
        if rest < 0 {
            -1
        } else {
            rest + 1
        }
    }
}

/// The value of a row at a column position; a position the row does not
/// cover reads as the empty string.
pub open spec fn cell(row: RowView, idx: int) -> Seq<char> {
    if 0 <= idx < row.len() {
        row[idx]
    } else {
        Seq::empty()
    }
}

/// The join-key values of a row: its cells at the named columns, in the
/// order the names are given.
pub open spec fn key_values(cols: Seq<Seq<char>>, on: Seq<Seq<char>>, row: RowView) -> RowView {
    Seq::new(on.len(), |i: int| cell(row, col_index(cols, on[i])))
}

/// Whether the four-character separator ` = '` of the filter language
/// stands at position `i`.
pub open spec fn is_sep_at(f: Seq<char>, i: int) -> bool {
    &&& 0 <= i
    &&& i + 4 <= f.len()
    &&& f[i] == ' '
    &&& f[i + 1] == '='
    &&& f[i + 2] == ' '
    &&& f[i + 3] == '\''
}

/// The parse of an equality filter `column = 'value'`: the column name
/// before the first separator, and the quoted literal after it. A string
/// without the separator, or without the closing quote, parses to nothing.
pub open spec fn parse_eq_filter(f: Seq<char>) -> Option<(Seq<char>, Seq<char>)>
    decreases f.len(),
{
    if is_sep_at(f, 0) {
        if f.len() >= 5 && f.last() == '\'' {
            Some((Seq::empty(), f.subrange(4, f.len() - 1)))
        } else {
            None
        }
    } else if f.len() == 0 {
        None
    } else {
        match parse_eq_filter(f.drop_first()) {
            Some(p) => Some((seq![f.first()] + p.0, p.1)),
            None => None,
        }
    }
}

/// Which rows an equality filter selects: those whose cell at the named
/// column equals the literal. An uninterpretable filter selects nothing.
pub open spec fn mem_filter_selects(cols: Seq<Seq<char>>, f: Seq<char>, row: RowView) -> bool {
    match parse_eq_filter(f) {
        Some(p) => cell(row, col_index(cols, p.0)) == p.1,
        None => false,
    }
}

proof fn lemma_parse_at_first_sep(f: Seq<char>, i: int)
    requires
        is_sep_at(f, i),
        forall|j: int| 0 <= j < i ==> !is_sep_at(f, j),
    ensures
        parse_eq_filter(f) == (if f.len() >= i + 5 && f.last() == '\'' {
            Some((f.subrange(0, i), f.subrange(i + 4, f.len() - 1)))
        } else {
            None::<(Seq<char>, Seq<char>)>
        }),
    decreases i,
{
    if i == 0 {
        assert(f.subrange(0, 0) =~= Seq::<char>::empty());
    } else {
        let g = f.drop_first();
        assert(is_sep_at(g, i - 1));
        assert forall|j: int| 0 <= j < i - 1 implies !is_sep_at(g, j) by {
            if is_sep_at(g, j) {
                assert(is_sep_at(f, j + 1));
            }
        }
        lemma_parse_at_first_sep(g, i - 1);
        if f.len() >= i + 5 && f.last() == '\'' {
            assert(g.last() == f.last());
            assert(seq![f.first()] + g.subrange(0, i - 1) =~= f.subrange(0, i));
            assert(g.subrange(i - 1 + 4, g.len() - 1) =~= f.subrange(i + 4, f.len() - 1));
        } else {
            if g.len() >= i - 1 + 5 {
                assert(g.last() == f.last());
            }
        }
    }
}

proof fn lemma_parse_no_sep(f: Seq<char>)
    requires
        forall|j: int| !is_sep_at(f, j),
    ensures
        parse_eq_filter(f) is None,
    decreases f.len(),
{
    if f.len() == 0 {
    } else {
        let g = f.drop_first();
        assert forall|j: int| !is_sep_at(g, j) by {
            if is_sep_at(g, j) {
                assert(is_sep_at(f, j + 1));
            }
        }
        lemma_parse_no_sep(g);
    }
}

proof fn lemma_col_index_found(cols: Seq<Seq<char>>, name: Seq<char>, i: int)
    requires
        0 <= i < cols.len(),
        forall|j: int| 0 <= j < i ==> cols[j] != name,
        cols[i] == name,
    ensures
        col_index(cols, name) == i,
    decreases i,
{
    if i == 0 {
    } else {
        assert(cols.first() != name);
        let g = cols.drop_first();
        assert forall|j: int| 0 <= j < i - 1 implies g[j] != name by {
            assert(g[j] == cols[j + 1]);
        }
        assert(g[i - 1] == name);
        lemma_col_index_found(g, name, i - 1);
    }
}

proof fn lemma_col_index_missing(cols: Seq<Seq<char>>, name: Seq<char>)
    requires
        forall|j: int| 0 <= j < cols.len() ==> cols[j] != name,
    ensures
        col_index(cols, name) == -1,
    decreases cols.len(),
{
    if cols.len() == 0 {
    } else {
        let g = cols.drop_first();
        assert forall|j: int| 0 <= j < g.len() implies g[j] != name by {
            assert(g[j] == cols[j + 1]);
        }
        lemma_col_index_missing(g, name);
    }
}

/// Parses an equality filter `column = 'value'` into the column name and
/// the literal, splitting at the first separator; hands back nothing when
/// the filter does not have that shape.
pub fn parse_filter(f: &str) -> (r: Option<(String, String)>)
    ensures
        match r {
            Some(p) => parse_eq_filter(f@) == Some((p.0@, p.1@)),
            None => parse_eq_filter(f@) is None,
        },
{
    let n = f.unicode_len();
    if n < 4 {
        proof {
            lemma_parse_no_sep(f@);
        }
        return None;
    }
    let mut i: usize = 0;
    while i <= n - 4
        invariant
            i <= n - 3,
            4 <= n == f@.len(),
            forall|j: int| 0 <= j < i ==> !is_sep_at(f@, j),
        decreases n - i,
    {
        if f.get_char(i) == ' ' && f.get_char(i + 1) == '=' && f.get_char(i + 2) == ' '
            && f.get_char(i + 3) == '\'' {
            proof {
                lemma_parse_at_first_sep(f@, i as int);
            }
            if i + 4 < n && f.get_char(n - 1) == '\'' {
                let col = f.substring_char(0, i);
                let val = f.substring_char(i + 4, n - 1);
                return Some((col.to_owned(), val.to_owned()));
            } else {
                return None;
            }
        }
        i = i + 1;
    }
    proof {
        lemma_parse_no_sep(f@);
    }
    None
}

/// The position of the first column of this name, if the schema has one.
fn find_col(cols: &Vec<String>, name: &str) -> (r: Option<usize>)
    ensures
        match r {
            Some(i) => i < cols@.len() && col_index(cols.deep_view(), name@) == i,
            None => col_index(cols.deep_view(), name@) == -1,
        },
{
    let n = cols.len();
    let mut i: usize = 0;
    while i < n
        invariant
            i <= n,
            n == cols@.len(),
            forall|j: int| 0 <= j < i ==> cols.deep_view()[j] != name@,
        decreases n - i,
    {
        if str_eq(cols[i].as_str(), name) {
            proof {
                lemma_col_index_found(cols.deep_view(), name@, i as int);
            }
            return Some(i);
        }
        i = i + 1;
    }
    proof {
        lemma_col_index_missing(cols.deep_view(), name@);
    }
    None
}

/// Compares two key tuples value for value.
fn keys_equal(a: &Vec<String>, b: &Vec<String>) -> (r: bool)
    ensures
        r == (a.deep_view() == b.deep_view()),
{
    let n = a.len();
    if n != b.len() {
        proof {
            assert(a.deep_view().len() != b.deep_view().len());
        }
        return false;
    }
    let mut i: usize = 0;
    while i < n
        invariant
            i <= n,
            n == a@.len() == b@.len(),
            forall|j: int| 0 <= j < i ==> a.deep_view()[j] == b.deep_view()[j],
        decreases n - i,
    {
        if !str_eq(a[i].as_str(), b[i].as_str()) {
            proof {
                assert(a.deep_view()[i as int] != b.deep_view()[i as int]);
            }
            return false;
        }
        i = i + 1;
    }
    proof {
        assert(a.deep_view() =~= b.deep_view());
    }
    true
}

/// Whether some key tuple of the collection equals the given one.
fn any_key_equal(keys: &Vec<Vec<String>>, k: &Vec<String>) -> (r: bool)
    ensures
        r == (exists|i: int|
            0 <= i < keys@.len() && keys@[i].deep_view() == k.deep_view()),
{
    let n = keys.len();
    let mut i: usize = 0;
    while i < n
        invariant
            i <= n,
            n == keys@.len(),
            forall|j: int| 0 <= j < i ==> keys@[j].deep_view() != k.deep_view(),
        decreases n - i,
    {
        if keys_equal(&keys[i], k) {
            return true;
        }
        i = i + 1;
    }
    false
}

/// Clones a row, value for value.
fn clone_row(row: &Row) -> (r: Row)
    ensures
        r@ == row@,
{
    Row { values: crate::strings::clone_string_vec(&row.values) }
}

/// Reads the join-key values of a row at the given column positions; a
/// position beyond the row's width reads as the empty string.
fn extract_key(key_idxs: &Vec<usize>, row: &Row) -> (r: Vec<String>)
    ensures
        r.deep_view() == Seq::new(key_idxs@.len(), |i: int| cell(row@, key_idxs@[i] as int)),
{
    let mut out: Vec<String> = Vec::new();
    let n = key_idxs.len();
    let mut i: usize = 0;
    while i < n
        invariant
            i <= n,
            n == key_idxs@.len(),
            out.deep_view() == Seq::new(i as nat, |j: int| cell(row@, key_idxs@[j] as int)),
        decreases n - i,
    {
        let idx = key_idxs[i];
        let ghost before = out.deep_view();
        if idx < row.values.len() {
            let v = row.values[idx].clone();
            proof {
                assert(v@ == cell(row@, idx as int));
            }
            out.push(v);
        } else {
            let v = String::new();
            proof {
                assert(v@ == cell(row@, idx as int));
            }
            out.push(v);
        }
        proof {
            assert(out.deep_view() =~= before.push(cell(row@, idx as int)));
            assert(out.deep_view() =~= Seq::new(
                (i + 1) as nat,
                |j: int| cell(row@, key_idxs@[j] as int),
            ));
        }
        i = i + 1;
    }
    out
}

/// An in-memory table: rows of strings under a named schema.
#[derive(Debug, Clone)]
pub struct MemTable {
    /// The column names of the schema, in order.
    pub columns: Vec<String>,
    /// The held rows, in order.
    pub rows: Vec<Row>,
}

/// The rows that survive deleting every row whose cell at `idx` equals
/// `val`, in order.
pub open spec fn rows_surviving(rows: RowsView, idx: int, val: Seq<char>) -> RowsView
    decreases rows.len(),
{
    if rows.len() == 0 {
        Seq::empty()
    } else {
        rows_surviving(rows.drop_last(), idx, val) + (if cell(rows.last(), idx) == val {
            Seq::empty()
        } else {
            seq![rows.last()]
        })
    }
}

impl MemTable {
    /// The number of rows the table holds.
    pub fn count_rows(&self) -> (r: usize)
        ensures
            r == self.rows@.len(),
    {
        self.rows.len()
    }

    /// Writes a batch of rows under the given mode: `Append` adds the rows
    /// after the held ones, `Overwrite` replaces the held rows, and `Create`
    /// is rejected, since this table already exists. The schema is
    /// unchanged.
    pub fn add(&mut self, new_rows: Vec<Row>, mode: WriteMode) -> (r: Result<
        (),
        Error,
    >)
        ensures
            final(self).columns == old(self).columns,
            mode == WriteMode::Append ==> r is Ok && final(self).rows.deep_view()
                == old(self).rows.deep_view() + new_rows.deep_view(),
            mode == WriteMode::Overwrite ==> r is Ok && final(self).rows.deep_view()
                == new_rows.deep_view(),
            mode == WriteMode::Create ==> (r matches Err(Error::InvalidInput {
                message,
            }) && message@ == "table already exists"@) && final(self).rows == old(self).rows,
    {
        match mode {
            WriteMode::Create => Err(
                Error::InvalidInput { message: String::from_str("table already exists") },
            ),
            WriteMode::Append => {
                let mut incoming = new_rows;
                proof {
                    assert(self.rows.deep_view() + incoming.deep_view() =~= old(
                        self,
                    ).rows.deep_view() + new_rows.deep_view());
                }
                self.rows.append(&mut incoming);
                proof {
                    assert(self.rows.deep_view() =~= old(self).rows.deep_view()
                        + new_rows.deep_view());
                }
                Ok(())
            },
            WriteMode::Overwrite => {
                self.rows = new_rows;
                Ok(())
            },
        }
    }

    /// Deletes every row the equality predicate `column = 'value'` selects.
    /// A predicate the engine cannot interpret — one without that shape, or
    /// naming a column the schema does not have — is rejected whole: the
    /// held rows are unchanged.
    pub fn delete(&mut self, predicate: &str) -> (r: Result<(), Error>)
        ensures
            final(self).columns == old(self).columns,
            ({
                match parse_eq_filter(predicate@) {
                    Some(p) => {
                        if col_index(old(self).columns.deep_view(), p.0) >= 0 {
                            r is Ok && final(self).rows.deep_view() == rows_surviving(
                                old(self).rows.deep_view(),
                                col_index(old(self).columns.deep_view(), p.0),
                                p.1,
                            )
                        } else {
                            r is Err && final(self).rows == old(self).rows
                        }
                    },
                    None => r is Err && final(self).rows == old(self).rows,
                }
            }),
    {
        let ghost cols = self.columns.deep_view();
        let ghost held = self.rows.deep_view();
        let (col, val) = match parse_filter(predicate) {
            Some(p) => p,
            None => {
                return Err(
                    Error::InvalidInput { message: String::from_str("delete filter not understood") },
                );
            },
        };
        let idx = match find_col(&self.columns, col.as_str()) {
            Some(i) => i,
            None => {
                return Err(
                    Error::InvalidInput { message: String::from_str("delete filter column not found") },
                );
            },
        };
        let filter_col_val: Option<(usize, String)> = Some((idx, val));
        let mut kept: Vec<Row> = Vec::new();
        let n = self.rows.len();
        let mut i: usize = 0;
        while i < n
            invariant
                i <= n,
                n == held.len(),
                held == self.rows.deep_view(),
                filter_col_val matches Some(p) && p.0 == idx,
                kept.deep_view() == rows_surviving(held.subrange(0, i as int), idx as int, (
                filter_col_val->Some_0).1@),
            decreases n - i,
        {
            proof {
                assert(held.subrange(0, (i + 1) as int).drop_last() =~= held.subrange(0, i as int));
                assert(held.subrange(0, (i + 1) as int).last() == held[i as int]);
            }
            let ghost step_before = kept.deep_view();
            let selected = row_selected(&filter_col_val, &self.rows[i]);
            if !selected {
                let r = clone_row(&self.rows[i]);
                proof {
                    assert(r@ == held[i as int]);
                }
                kept.push(r);
                proof {
                    assert(kept.deep_view() =~= step_before.push(held[i as int]));
                }
            }
            proof {
                assert(kept.deep_view() =~= rows_surviving(
                    held.subrange(0, (i + 1) as int),
                    idx as int,
                    (filter_col_val->Some_0).1@,
                ));
            }
            i = i + 1;
        }
        proof {
            assert(held.subrange(0, n as int) =~= held);
        }
        self.rows = kept;
        Ok(())
    }
}

impl MergeInsert for MemTable {
    open spec fn rows(&self) -> RowsView {
        self.rows.deep_view()
    }

    open spec fn key_fn(&self, on: Seq<Seq<char>>) -> spec_fn(RowView) -> RowView {
        |row: RowView| key_values(self.columns.deep_view(), on, row)
    }

    open spec fn filter_sem(&self) -> spec_fn(Seq<char>, RowView) -> bool {
        |f: Seq<char>, row: RowView| mem_filter_selects(self.columns.deep_view(), f, row)
    }

    /// This engine's choice for the multiple-match update case: a matched
    /// target row is replaced by every source row carrying its key, in
    /// source order, one copy per matching source row.
    open spec fn update_sem(&self, on: Seq<Seq<char>>, source: RowsView) -> spec_fn(
        RowView,
    ) -> RowsView {
        |row: RowView|
            matching_rows(source, key_values(self.columns.deep_view(), on, row), self.key_fn(on))
    }

    open spec fn merge_accepts(&self, cfg: MergeConfig, source: RowsView) -> bool {
        &&& forall|i: int|
            0 <= i < cfg.on.len() ==> col_index(self.columns.deep_view(), #[trigger] cfg.on[i])
                >= 0
        &&& cfg.delete_unmatched ==> match cfg.delete_filter {
            None => true,
            Some(f) => match parse_eq_filter(f) {
                Some(p) => col_index(self.columns.deep_view(), p.0) >= 0,
                None => false,
            },
        }
    }

    fn do_merge_insert(&mut self, params: MergeInsertBuilder, new_data: Vec<Row>) -> (r: Result<
        (),
        Error,
    >) {
        let ghost cols = self.columns.deep_view();
        let ghost onv = params.on.deep_view();
        let ghost cfg = params@;
        let ghost key = old(self).key_fn(params@.on);
        let ghost del = del_for(params@.delete_filter, old(self).filter_sem());
        let ghost target = self.rows.deep_view();
        let ghost srcv = new_data.deep_view();
        let ghost upd = replacement_for(srcv, key, old(self).update_sem(params@.on, srcv));

        // Resolve the join-key columns against the schema.
        let mut key_idxs: Vec<usize> = Vec::new();
        let n_on = params.on.len();
        let mut i: usize = 0;
        while i < n_on
            invariant
                i <= n_on,
                n_on == onv.len(),
                onv == params.on.deep_view(),
                cols == self.columns.deep_view(),
                cols == old(self).columns.deep_view(),
                cfg == params@,
                cfg.on == onv,
                key_idxs@.len() == i,
                forall|j: int|
                    0 <= j < i ==> key_idxs@[j] as int == col_index(cols, #[trigger] onv[j]),
            decreases n_on - i,
        {
            match find_col(&self.columns, params.on[i].as_str()) {
                Some(idx) => {
                    key_idxs.push(idx);
                },
                None => {
                    proof {
                        assert(col_index(cols, onv[i as int]) == -1);
                        assert(!old(self).merge_accepts(cfg, srcv)) by {
                            if old(self).merge_accepts(cfg, srcv) {
                                assert(col_index(cols, cfg.on[i as int]) >= 0);
                            }
                        }
                    }
                    return Err(
                        Error::InvalidInput {
                            message: String::from_str("merge insert join key column not found"),
                        },
                    );
                },
            }
            i = i + 1;
        }

        // Interpret the delete filter, if one is in effect.
        let filter_col_val: Option<(usize, String)> = if params.when_not_matched_by_source_delete {
            match &params.when_not_matched_by_source_delete_filt {
                None => None,
                Some(f) => {
                    match parse_filter(f.as_str()) {
                        Some((c, v)) => {
                            match find_col(&self.columns, c.as_str()) {
                                Some(idx) => Some((idx, v)),
                                None => {
                                    return Err(
                                        Error::InvalidInput {
                                            message: String::from_str(
                                                "merge insert delete filter column not found",
                                            ),
                                        },
                                    );
                                },
                            }
                        },
                        None => {
                            return Err(
                                Error::InvalidInput {
                                    message: String::from_str(
                                        "merge insert delete filter not understood",
                                    ),
                                },
                            );
                        },
                    }
                },
            }
        } else {
            None
        };
        proof {
            assert(old(self).merge_accepts(cfg, srcv));
            if params.when_not_matched_by_source_delete {
                match cfg.delete_filter {
                    None => {
                        assert forall|row: RowView| #[trigger] del(row) == true by {}
                    },
                    Some(fv) => {
                        let p = filter_col_val->Some_0;
                        assert forall|row: RowView| #[trigger] del(row) == (cell(
                            row,
                            p.0 as int,
                        ) == p.1@) by {
                            assert(del(row) == mem_filter_selects(cols, fv, row));
                        }
                    },
                }
            }
            assert(filter_ok(cfg, filter_col_val, cols, del));
        }

        // Every key below is extracted through `key_idxs`, so it equals the
        // abstract key of the corresponding row.
        proof {
            assert forall|row: RowView| #[trigger] key(row) =~= Seq::new(
                key_idxs@.len(),
                |j: int| cell(row, key_idxs@[j] as int),
            ) by {
                assert(key(row) =~= key_values(cols, onv, row));
            }
        }

        let mut source_keys: Vec<Vec<String>> = Vec::new();
        let n_src = new_data.len();
        let mut j: usize = 0;
        while j < n_src
            invariant
                j <= n_src,
                n_src == srcv.len(),
                srcv == new_data.deep_view(),
                source_keys@.len() == j,
                forall|jj: int|
                    0 <= jj < j ==> #[trigger] source_keys@[jj].deep_view() == key(srcv[jj]),
                forall|row: RowView| #[trigger] key(row) == Seq::new(
                    key_idxs@.len(),
                    |q: int| cell(row, key_idxs@[q] as int),
                ),
            decreases n_src - j,
        {
            let k = extract_key(&key_idxs, &new_data[j]);
            proof {
                assert(new_data[j as int]@ == srcv[j as int]);
            }
            source_keys.push(k);
            j = j + 1;
        }

        let mut target_keys: Vec<Vec<String>> = Vec::new();
        let n_tgt = self.rows.len();
        let mut t: usize = 0;
        while t < n_tgt
            invariant
                t <= n_tgt,
                n_tgt == target.len(),
                target == self.rows.deep_view(),
                target_keys@.len() == t,
                forall|tt: int|
                    0 <= tt < t ==> #[trigger] target_keys@[tt].deep_view() == key(target[tt]),
                forall|row: RowView| #[trigger] key(row) == Seq::new(
                    key_idxs@.len(),
                    |q: int| cell(row, key_idxs@[q] as int),
                ),
            decreases n_tgt - t,
        {
            let k = extract_key(&key_idxs, &self.rows[t]);
            proof {
                assert(self.rows[t as int]@ == target[t as int]);
            }
            target_keys.push(k);
            t = t + 1;
        }

        // The update and delete phases, over one consistent snapshot.
        let mut result: Vec<Row> = Vec::new();
        let mut i: usize = 0;
        while i < n_tgt
            invariant
                i <= n_tgt,
                n_tgt == target.len() == self.rows@.len(),
                target == self.rows.deep_view(),
                srcv == new_data.deep_view(),
                n_src == srcv.len(),
                source_keys@.len() == n_src,
                forall|jj: int|
                    0 <= jj < n_src ==> #[trigger] source_keys@[jj].deep_view() == key(srcv[jj]),
                target_keys@.len() == n_tgt,
                forall|tt: int|
                    0 <= tt < n_tgt ==> #[trigger] target_keys@[tt].deep_view() == key(target[tt]),
                cfg == params@,
                cols == self.columns.deep_view(),
                filter_ok(cfg, filter_col_val, cols, del),
                upd == replacement_for(srcv, key, old(self).update_sem(cfg.on, srcv)),
                key == old(self).key_fn(cfg.on),
                cols == old(self).columns.deep_view(),
                result.deep_view() == merged_existing(
                    target.subrange(0, i as int),
                    srcv,
                    cfg,
                    key,
                    upd,
                    del,
                ),
            decreases n_tgt - i,
        {
            proof {
                assert(target.subrange(0, (i + 1) as int).drop_last() =~= target.subrange(
                    0,
                    i as int,
                ));
                assert(target.subrange(0, (i + 1) as int).last() == target[i as int]);
            }
            let matched = any_key_equal(&source_keys, &target_keys[i]);
            proof {
                assert(matched == row_matched(target[i as int], srcv, key)) by {
                    if matched {
                        let w = choose|w: int|
                            0 <= w < source_keys@.len() && source_keys@[w].deep_view()
                                == target_keys@[i as int].deep_view();
                        assert(key(srcv[w]) == key(target[i as int]));
                    }
                    if row_matched(target[i as int], srcv, key) {
                        let w = choose|w: int|
                            0 <= w < srcv.len() && key(srcv[w]) == key(target[i as int]);
                        assert(source_keys@[w].deep_view() == target_keys@[i as int].deep_view());
                    }
                }
            }
            if matched {
                if params.when_matched_update_all {
                    let ghost k_i = key(target[i as int]);
                    let ghost result_before = result.deep_view();
                    let mut j: usize = 0;
                    while j < n_src
                        invariant
                            j <= n_src,
                            n_src == srcv.len() == new_data@.len(),
                            srcv == new_data.deep_view(),
                            source_keys@.len() == n_src,
                            forall|jj: int|
                                0 <= jj < n_src ==> #[trigger] source_keys@[jj].deep_view() == key(
                                    srcv[jj],
                                ),
                            i < target_keys@.len(),
                            target_keys@[i as int].deep_view() == k_i,
                            result.deep_view() == result_before + matching_rows(
                                srcv.subrange(0, j as int),
                                k_i,
                                key,
                            ),
                        decreases n_src - j,
                    {
                        proof {
                            assert(srcv.subrange(0, (j + 1) as int).drop_last() =~= srcv.subrange(
                                0,
                                j as int,
                            ));
                            assert(srcv.subrange(0, (j + 1) as int).last() == srcv[j as int]);
                        }
                        let ghost step_before = result.deep_view();
                        if keys_equal(&source_keys[j], &target_keys[i]) {
                            let r = clone_row(&new_data[j]);
                            proof {
                                assert(r@ == srcv[j as int]);
                                assert(key(srcv[j as int]) == k_i);
                            }
                            result.push(r);
                            proof {
                                assert(result.deep_view() =~= step_before.push(srcv[j as int]));
                            }
                        } else {
                            proof {
                                assert(key(srcv[j as int]) != k_i);
                            }
                        }
                        proof {
                            assert(matching_rows(srcv.subrange(0, (j + 1) as int), k_i, key)
                                == matching_rows(srcv.subrange(0, j as int), k_i, key) + (if key(
                                srcv[j as int],
                            ) == k_i {
                                seq![srcv[j as int]]
                            } else {
                                Seq::empty()
                            }));
                            assert(result.deep_view() =~= result_before + matching_rows(
                                srcv.subrange(0, (j + 1) as int),
                                k_i,
                                key,
                            ));
                        }
                        j = j + 1;
                    }
                    proof {
                        assert(srcv.subrange(0, n_src as int) =~= srcv);
                        assert(upd(target[i as int]) == matching_rows(srcv, k_i, key)) by {
                            assert(old(self).update_sem(cfg.on, srcv)(target[i as int])
                                == matching_rows(
                                srcv,
                                key_values(cols, cfg.on, target[i as int]),
                                old(self).key_fn(cfg.on),
                            ));
                            assert(key(target[i as int]) == key_values(
                                cols,
                                cfg.on,
                                target[i as int],
                            ));
                        }
                        assert(row_contribution(target[i as int], srcv, cfg, key, upd, del)
                            == matching_rows(srcv, k_i, key));
                        assert(result.deep_view() =~= merged_existing(
                            target.subrange(0, (i + 1) as int),
                            srcv,
                            cfg,
                            key,
                            upd,
                            del,
                        ));
                    }
                } else {
                    let r = clone_row(&self.rows[i]);
                    proof {
                        assert(r@ == target[i as int]);
                    }
                    result.push(r);
                    proof {
                        assert(result.deep_view() =~= merged_existing(
                            target.subrange(0, (i + 1) as int),
                            srcv,
                            cfg,
                            key,
                            upd,
                            del,
                        ));
                    }
                }
            } else {
                let selected: bool = if params.when_not_matched_by_source_delete {
                    row_selected(&filter_col_val, &self.rows[i])
                } else {
                    false
                };
                proof {
                    if params.when_not_matched_by_source_delete {
                        assert(selected == del(target[i as int]));
                    }
                }
                if params.when_not_matched_by_source_delete && selected {
                    proof {
                        assert(row_contribution(target[i as int], srcv, cfg, key, upd, del)
                            =~= Seq::<RowView>::empty());
                        assert(result.deep_view() =~= merged_existing(
                            target.subrange(0, (i + 1) as int),
                            srcv,
                            cfg,
                            key,
                            upd,
                            del,
                        ));
                    }
                } else {
                    let r = clone_row(&self.rows[i]);
                    proof {
                        assert(r@ == target[i as int]);
                    }
                    result.push(r);
                    proof {
                        assert(result.deep_view() =~= merged_existing(
                            target.subrange(0, (i + 1) as int),
                            srcv,
                            cfg,
                            key,
                            upd,
                            del,
                        ));
                    }
                }
            }
            i = i + 1;
        }
        proof {
            assert(target.subrange(0, n_tgt as int) =~= target);
        }

        // The insert phase.
        if params.when_not_matched_insert_all {
            let mut j: usize = 0;
            while j < n_src
                invariant
                    j <= n_src,
                    n_src == srcv.len() == new_data@.len(),
                    srcv == new_data.deep_view(),
                    n_tgt == target.len(),
                    source_keys@.len() == n_src,
                    forall|jj: int|
                        0 <= jj < n_src ==> #[trigger] source_keys@[jj].deep_view() == key(
                            srcv[jj],
                        ),
                    target_keys@.len() == n_tgt,
                    forall|tt: int|
                        0 <= tt < n_tgt ==> #[trigger] target_keys@[tt].deep_view() == key(
                            target[tt],
                        ),
                    cfg == params@,
                    cfg.insert_all,
                    result.deep_view() == merged_existing(target, srcv, cfg, key, upd, del)
                        + merge_inserts(target, srcv.subrange(0, j as int), cfg, key),
                decreases n_src - j,
            {
                proof {
                    assert(srcv.subrange(0, (j + 1) as int).drop_last() =~= srcv.subrange(
                        0,
                        j as int,
                    ));
                    assert(srcv.subrange(0, (j + 1) as int).last() == srcv[j as int]);
                }
                let matched = any_key_equal(&target_keys, &source_keys[j]);
                proof {
                    assert(matched == row_matched(srcv[j as int], target, key)) by {
                        if matched {
                            let w = choose|w: int|
                                0 <= w < target_keys@.len() && target_keys@[w].deep_view()
                                    == source_keys@[j as int].deep_view();
                            assert(key(target[w]) == key(srcv[j as int]));
                        }
                        if row_matched(srcv[j as int], target, key) {
                            let w = choose|w: int|
                                0 <= w < target.len() && key(target[w]) == key(srcv[j as int]);
                            assert(target_keys@[w].deep_view() == source_keys@[j as int
                            ].deep_view());
                        }
                    }
                }
                let ghost step_before = result.deep_view();
                if !matched {
                    let r = clone_row(&new_data[j]);
                    proof {
                        assert(r@ == srcv[j as int]);
                    }
                    result.push(r);
                    proof {
                        assert(result.deep_view() =~= step_before.push(srcv[j as int]));
                    }
                }
                proof {
                    assert(merge_inserts(target, srcv.subrange(0, (j + 1) as int), cfg, key)
                        == merge_inserts(target, srcv.subrange(0, j as int), cfg, key) + (if
                    row_matched(srcv[j as int], target, key) {
                        Seq::empty()
                    } else {
                        seq![srcv[j as int]]
                    }));
                    assert(result.deep_view() =~= merged_existing(target, srcv, cfg, key, upd, del)
                        + merge_inserts(target, srcv.subrange(0, (j + 1) as int), cfg, key));
                }
                j = j + 1;
            }
            proof {
                assert(srcv.subrange(0, n_src as int) =~= srcv);
            }
        }
        proof {
            assert(result.deep_view() =~= merge_result(target, srcv, cfg, key, upd, del));
        }
        self.rows = result;
        Ok(())
    }
}

/// The resolved filter state matches the abstract delete predicate: when a
/// filter is in effect, the resolved column position and literal agree with
/// the parse the predicate is defined from.
pub open spec fn filter_ok(
    cfg: MergeConfig,
    filter_col_val: Option<(usize, String)>,
    cols: Seq<Seq<char>>,
    del: spec_fn(RowView) -> bool,
) -> bool {
    cfg.delete_unmatched ==> match cfg.delete_filter {
        None => filter_col_val is None && forall|row: RowView| #[trigger] del(row) == true,
        Some(f) => match filter_col_val {
            Some(p) => forall|row: RowView| #[trigger] del(row) == (cell(row, p.0 as int) == p.1@),
            None => false,
        },
    }
}

/// Whether the resolved equality filter selects this row.
fn row_selected(filter_col_val: &Option<(usize, String)>, row: &Row) -> (r: bool)
    ensures
        match filter_col_val {
            None => r == true,
            Some(p) => r == (cell(row@, p.0 as int) == p.1@),
        },
{
    match filter_col_val {
        None => true,
        Some((idx, val)) => {
            if *idx < row.values.len() {
                str_eq(row.values[*idx].as_str(), val.as_str())
            } else {
                proof {
                    reveal_strlit("");
                    assert(""@ =~= Seq::<char>::empty());
                }
                str_eq(val.as_str(), "")
            }
        },
    }
}

} // verus!
