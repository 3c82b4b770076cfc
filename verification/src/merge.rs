//! The merge-insert (upsert) builder and its reconciliation semantics.
//!
//! A [`MergeInsertBuilder`] captures the match/no-match policies for
//! reconciling two row sets: an existing target table and an incoming source.
//! Executing the builder delegates the actual work to a storage collaborator
//! through the [`MergeInsert`] capability, whose contract pins the net effect
//! down to [`merge_result`]: the update, insert and delete phases are
//! computed from one consistent snapshot of the matched and unmatched sets,
//! so no row is both updated and deleted, nor both inserted and updated, and
//! a failed merge leaves the target unchanged (atomicity).

use vstd::prelude::*;

use crate::error::Error;

verus! {

/// The view of one row: one character sequence per column.
pub type RowView = Seq<Seq<char>>;

/// The view of an ordered collection of rows.
pub type RowsView = Seq<RowView>;

/// A row handed to a storage engine: one value per column of the table's
/// schema.
#[derive(Clone, Debug, PartialEq, Eq)]
pub struct Row {
    pub values: Vec<String>,
}

impl View for Row {
    type V = RowView;

    open spec fn view(&self) -> RowView {
        self.values.deep_view()
    }
}

impl DeepView for Row {
    type V = RowView;

    open spec fn deep_view(&self) -> RowView {
        self.values.deep_view()
    }
}

/// The configuration captured by a merge-insert builder.
#[verifier::ext_equal]
pub ghost struct MergeConfig {
    /// The join-key column names; never empty.
    pub on: Seq<Seq<char>>,
    /// Replace every matched target row with the matching source rows.
    pub update_all: bool,
    /// Insert every unmatched source row.
    pub insert_all: bool,
    /// Delete unmatched target rows.
    pub delete_unmatched: bool,
    /// When deleting, only delete unmatched target rows that this predicate
    /// selects; absent a filter, every unmatched target row is deleted.
    pub delete_filter: Option<Seq<char>>,
}

/// Whether some row of `other` has the same join-key values as `row`, under
/// the engine's key extraction `key`.
pub open spec fn row_matched(row: RowView, other: RowsView, key: spec_fn(RowView) -> RowView) -> bool {
    exists|i: int| 0 <= i < other.len() && key(other[i]) == key(row)
}

/// The rows of `source`, in order, whose join-key values equal `k`.
pub open spec fn matching_rows(source: RowsView, k: RowView, key: spec_fn(RowView) -> RowView) -> RowsView
    decreases source.len(),
{
    if source.len() == 0 {
        Seq::empty()
    } else {
        matching_rows(source.drop_last(), k, key) + (if key(source.last()) == k {
            seq![source.last()]
        } else {
            Seq::empty()
        })
    }
}

/// What one existing target row becomes under the configured policy: a
/// matched row is replaced by `upd(row)` when `update_all` is set (see
/// [`replacement_for`] for what that replacement may be) and kept otherwise;
/// an unmatched row is removed when `delete_unmatched` is set and the delete
/// predicate selects it, and kept otherwise.
pub open spec fn row_contribution(
    row: RowView,
    source: RowsView,
    cfg: MergeConfig,
    key: spec_fn(RowView) -> RowView,
    upd: spec_fn(RowView) -> RowsView,
    del: spec_fn(RowView) -> bool,
) -> RowsView {
    if row_matched(row, source, key) {
        if cfg.update_all {
            upd(row)
        } else {
            seq![row]
        }
    } else {
        if cfg.delete_unmatched && del(row) {
            Seq::empty()
        } else {
            seq![row]
        }
    }
}

/// What the existing target rows become, in order, under the configured
/// policy.
pub open spec fn merged_existing(
    target: RowsView,
    source: RowsView,
    cfg: MergeConfig,
    key: spec_fn(RowView) -> RowView,
    upd: spec_fn(RowView) -> RowsView,
    del: spec_fn(RowView) -> bool,
) -> RowsView
    decreases target.len(),
{
    if target.len() == 0 {
        Seq::empty()
    } else {
        merged_existing(target.drop_last(), source, cfg, key, upd, del) + row_contribution(
            target.last(),
            source,
            cfg,
            key,
            upd,
            del,
        )
    }
}

/// The source rows appended by the insert phase: every source row whose
/// join-key values match no existing target row, in source order, when
/// `insert_all` is set; nothing otherwise.
pub open spec fn merge_inserts(
    target: RowsView,
    source: RowsView,
    cfg: MergeConfig,
    key: spec_fn(RowView) -> RowView,
) -> RowsView
    decreases source.len(),
{
    if !cfg.insert_all {
        Seq::empty()
    } else if source.len() == 0 {
        Seq::empty()
    } else {
        merge_inserts(target, source.drop_last(), cfg, key) + (if row_matched(
            source.last(),
            target,
            key,
        ) {
            Seq::empty()
        } else {
            seq![source.last()]
        })
    }
}

/// The net effect of a merge-insert: the target rows transformed by the
/// update and delete phases, followed by the rows the insert phase appends.
/// Matched and unmatched sets are computed from one consistent snapshot, so
/// no row is both updated and deleted, nor both inserted and updated.
pub open spec fn merge_result(
    target: RowsView,
    source: RowsView,
    cfg: MergeConfig,
    key: spec_fn(RowView) -> RowView,
    upd: spec_fn(RowView) -> RowsView,
    del: spec_fn(RowView) -> bool,
) -> RowsView {
    merged_existing(target, source, cfg, key, upd, del) + merge_inserts(target, source, cfg, key)
}

/// The replacement of a matched target row under the update policy. When
/// exactly one source row carries the row's join-key values, the row is
/// replaced in full by that incoming row — that much holds of every engine.
/// When several source rows match the one key, the replacement is the
/// engine's own choice `sem`: the multiple-match case is deliberately left
/// underspecified (an engine may produce multiple replaced copies, and its
/// choice is subject to change), so nothing beyond the engine's declared
/// choice can be concluded about it.
pub open spec fn replacement_for(
    source: RowsView,
    key: spec_fn(RowView) -> RowView,
    sem: spec_fn(RowView) -> RowsView,
) -> spec_fn(RowView) -> RowsView {
    |row: RowView|
        if matching_rows(source, key(row), key).len() == 1 {
            matching_rows(source, key(row), key)
        } else {
            sem(row)
        }
}

/// The delete predicate in effect: with no filter every row is selected;
/// with a filter, the rows the engine's interpretation `sem` of that filter
/// selects.
pub open spec fn del_for(
    filter: Option<Seq<char>>,
    sem: spec_fn(Seq<char>, RowView) -> bool,
) -> spec_fn(RowView) -> bool {
    match filter {
        None => (|row: RowView| true),
        Some(f) => (|row: RowView| sem(f, row)),
    }
}

/// The merge capability a storage engine offers. The engine defines how rows
/// are held, how join-key values are extracted, how a delete filter is
/// interpreted, and which merges it accepts; the contract of
/// [`MergeInsert::do_merge_insert`] then fixes the net effect of every
/// accepted merge to [`merge_result`], and requires a rejected or failed
/// merge to leave the rows unchanged. The engine is assumed atomic and
/// crash-safe at the granularity of a single call.
pub trait MergeInsert: Sized {
    /// The rows the engine currently holds, in order.
    spec fn rows(&self) -> RowsView;

    /// The join-key values of a row under the given join-key column names.
    spec fn key_fn(&self, on: Seq<Seq<char>>) -> spec_fn(RowView) -> RowView;

    /// The engine's interpretation of a delete filter: which rows a given
    /// filter selects.
    spec fn filter_sem(&self) -> spec_fn(Seq<char>, RowView) -> bool;

    /// The engine's replacement for a matched target row when several
    /// source rows carry the row's join-key values. This case is
    /// deliberately engine-defined and subject to change; the single-match
    /// case is fixed for every engine by [`replacement_for`] and never
    /// reaches this choice.
    spec fn update_sem(&self, on: Seq<Seq<char>>, source: RowsView) -> spec_fn(RowView) -> RowsView;

    /// Which merge configurations and sources this engine accepts.
    spec fn merge_accepts(&self, cfg: MergeConfig, source: RowsView) -> bool;

    /// Reconciles the incoming rows with the held rows under the builder's
    /// configuration, atomically: on success the held rows become exactly
    /// [`merge_result`]; on failure they are unchanged.
    fn do_merge_insert(&mut self, params: MergeInsertBuilder, new_data: Vec<Row>) -> (r: Result<
        (),
        Error,
    >)
        ensures
            r is Ok <==> old(self).merge_accepts(params@, new_data.deep_view()),
            r is Ok ==> final(self).rows() == merge_result(
                old(self).rows(),
                new_data.deep_view(),
                params@,
                old(self).key_fn(params@.on),
                replacement_for(
                    new_data.deep_view(),
                    old(self).key_fn(params@.on),
                    old(self).update_sem(params@.on, new_data.deep_view()),
                ),
                del_for(params@.delete_filter, old(self).filter_sem()),
            ),
            r is Err ==> final(self).rows() == old(self).rows(),
    ;
}

/// The message reported when a builder is constructed with no join keys.
pub open spec fn empty_join_keys_message() -> Seq<char> {
    "merge insert requires at least one join key column"@
}

/// A builder used to create and run a merge-insert operation: it captures
/// the join keys and the match/no-match policies, and is consumed by
/// [`MergeInsertBuilder::execute`], which transfers the configuration into
/// the executing operation.
#[derive(Debug, Clone)]
pub struct MergeInsertBuilder {
    pub on: Vec<String>,
    pub when_matched_update_all: bool,
    pub when_not_matched_insert_all: bool,
    pub when_not_matched_by_source_delete: bool,
    pub when_not_matched_by_source_delete_filt: Option<String>,
}

impl View for MergeInsertBuilder {
    type V = MergeConfig;

    open spec fn view(&self) -> MergeConfig {
        MergeConfig {
            on: self.on.deep_view(),
            update_all: self.when_matched_update_all,
            insert_all: self.when_not_matched_insert_all,
            delete_unmatched: self.when_not_matched_by_source_delete,
            delete_filter: self.when_not_matched_by_source_delete_filt.deep_view(),
        }
    }
}

impl MergeInsertBuilder {
    /// Constructs a builder joining on the given key columns, with no policy
    /// flags set. An empty join-key sequence is rejected here, at
    /// construction: matching on no keys would define every row as matched.
    pub fn new(on: Vec<String>) -> (r: Result<MergeInsertBuilder, Error>)
        ensures
            on@.len() == 0 ==> (r matches Err(Error::InvalidInput { message }) && message@
                == empty_join_keys_message()),
            on@.len() > 0 ==> (r matches Ok(b) && b@ == (MergeConfig {
                on: on.deep_view(),
                update_all: false,
                insert_all: false,
                delete_unmatched: false,
                delete_filter: None,
            })),
    {
        if on.len() == 0 {
            Err(
                Error::InvalidInput {
                    message: String::from_str("merge insert requires at least one join key column"),
                },
            )
        } else {
            Ok(
                MergeInsertBuilder {
                    on,
                    when_matched_update_all: false,
                    when_not_matched_insert_all: false,
                    when_not_matched_by_source_delete: false,
                    when_not_matched_by_source_delete_filt: None,
                },
            )
        }
    }

    /// Rows that exist in both the source (new data) and the target (old
    /// data) will be updated, replacing the old row with the corresponding
    /// matching row.
    ///
    /// If there are multiple matches then the behavior is engine-defined:
    /// an engine may produce multiple copies of the row, and that behavior
    /// is subject to change.
    pub fn when_matched_update_all(self) -> (r: Self)
        ensures
            r@ == (MergeConfig { update_all: true, ..self@ }),
    {
        MergeInsertBuilder { when_matched_update_all: true, ..self }
    }

    /// Rows that exist only in the source (new data) should be inserted into
    /// the target.
    pub fn when_not_matched_insert_all(self) -> (r: Self)
        ensures
            r@ == (MergeConfig { insert_all: true, ..self@ }),
    {
        MergeInsertBuilder { when_not_matched_insert_all: true, ..self }
    }

    /// Rows that exist only in the target (old data) will be deleted. If
    /// `filter` is `None` all such rows are deleted; otherwise only the
    /// unmatched target rows the engine's interpretation of the filter
    /// selects are deleted.
    pub fn when_not_matched_by_source_delete(self, filter: Option<String>) -> (r: Self)
        ensures
            r@ == (MergeConfig {
                delete_unmatched: true,
                delete_filter: filter.deep_view(),
                ..self@
            }),
    {
        MergeInsertBuilder {
            when_not_matched_by_source_delete: true,
            when_not_matched_by_source_delete_filt: filter,
            ..self
        }
    }

    /// Executes the merge-insert operation against the target, consuming the
    /// builder: the join keys and the three policy flags become fixed. On
    /// success the target's rows become exactly [`merge_result`]; on failure
    /// the target is unchanged.
    pub fn execute<T: MergeInsert>(self, target: &mut T, new_data: Vec<Row>) -> (r: Result<
        (),
        Error,
    >)
        ensures
            r is Ok <==> old(target).merge_accepts(self@, new_data.deep_view()),
            r is Ok ==> final(target).rows() == merge_result(
                old(target).rows(),
                new_data.deep_view(),
                self@,
                old(target).key_fn(self@.on),
                replacement_for(
                    new_data.deep_view(),
                    old(target).key_fn(self@.on),
                    old(target).update_sem(self@.on, new_data.deep_view()),
                ),
                del_for(self@.delete_filter, old(target).filter_sem()),
            ),
            r is Err ==> final(target).rows() == old(target).rows(),
    {
        target.do_merge_insert(self, new_data)
    }
}

/// Law: a merge with no policy flags set leaves the target's rows unchanged,
/// whatever the source, the join keys, and the engine's key extraction and
/// filter interpretation: the join is still computed but nothing is mutated.
pub proof fn lemma_merge_no_flags_is_noop(
    target: RowsView,
    source: RowsView,
    cfg: MergeConfig,
    key: spec_fn(RowView) -> RowView,
    upd: spec_fn(RowView) -> RowsView,
    del: spec_fn(RowView) -> bool,
)
    requires
        !cfg.update_all,
        !cfg.insert_all,
        !cfg.delete_unmatched,
    ensures
        merge_result(target, source, cfg, key, upd, del) == target,
    decreases target.len(),
{
    if target.len() == 0 {
        assert(merge_result(target, source, cfg, key, upd, del) =~= target);
    } else {
        lemma_merge_no_flags_is_noop(target.drop_last(), source, cfg, key, upd, del);
        assert(row_contribution(target.last(), source, cfg, key, upd, del) =~= seq![
            target.last(),
        ]);
        assert(merge_result(target, source, cfg, key, upd, del) =~= target);
    }
}

/// Law: a merge with only the insert policy set, against a target none of
/// whose rows share a join key with the source, appends every source row in
/// order and performs no update and no deletion: the result is exactly the
/// target followed by the source.
pub proof fn lemma_merge_insert_only_appends(
    target: RowsView,
    source: RowsView,
    cfg: MergeConfig,
    key: spec_fn(RowView) -> RowView,
    upd: spec_fn(RowView) -> RowsView,
    del: spec_fn(RowView) -> bool,
)
    requires
        cfg.insert_all,
        !cfg.update_all,
        !cfg.delete_unmatched,
        forall|i: int| 0 <= i < source.len() ==> !row_matched(#[trigger] source[i], target, key),
    ensures
        merge_result(target, source, cfg, key, upd, del) == target + source,
{
    lemma_merged_existing_without_update_or_delete(target, source, cfg, key, upd, del);
    lemma_merge_inserts_all_unmatched(target, source, cfg, key);
    assert(merge_result(target, source, cfg, key, upd, del) =~= target + source);
}

/// With neither the update nor the delete policy set, the existing target
/// rows pass through the merge unchanged.
proof fn lemma_merged_existing_without_update_or_delete(
    target: RowsView,
    source: RowsView,
    cfg: MergeConfig,
    key: spec_fn(RowView) -> RowView,
    upd: spec_fn(RowView) -> RowsView,
    del: spec_fn(RowView) -> bool,
)
    requires
        !cfg.update_all,
        !cfg.delete_unmatched,
    ensures
        merged_existing(target, source, cfg, key, upd, del) == target,
    decreases target.len(),
{
    if target.len() == 0 {
        assert(merged_existing(target, source, cfg, key, upd, del) =~= target);
    } else {
        lemma_merged_existing_without_update_or_delete(
            target.drop_last(),
            source,
            cfg,
            key,
            upd,
            del,
        );
        assert(merged_existing(target, source, cfg, key, upd, del) =~= target);
    }
}

/// With the insert policy set and no source row matching the target, the
/// insert phase appends the whole source in order.
proof fn lemma_merge_inserts_all_unmatched(
    target: RowsView,
    source: RowsView,
    cfg: MergeConfig,
    key: spec_fn(RowView) -> RowView,
)
    requires
        cfg.insert_all,
        forall|i: int| 0 <= i < source.len() ==> !row_matched(#[trigger] source[i], target, key),
    ensures
        merge_inserts(target, source, cfg, key) == source,
    decreases source.len(),
{
    if source.len() == 0 {
        assert(merge_inserts(target, source, cfg, key) =~= source);
    } else {
        assert(forall|i: int|
            0 <= i < source.drop_last().len() ==> !row_matched(
                #[trigger] source.drop_last()[i],
                target,
                key,
            ));
        lemma_merge_inserts_all_unmatched(target, source.drop_last(), cfg, key);
        assert(!row_matched(source[source.len() - 1], target, key));
        assert(merge_inserts(target, source, cfg, key) =~= source);
    }
}

/// The target rows that survive a delete-only merge: those that are matched
/// by the source, and those the delete predicate does not select.
pub open spec fn rows_kept_after_delete(
    target: RowsView,
    source: RowsView,
    key: spec_fn(RowView) -> RowView,
    del: spec_fn(RowView) -> bool,
) -> RowsView
    decreases target.len(),
{
    if target.len() == 0 {
        Seq::empty()
    } else {
        rows_kept_after_delete(target.drop_last(), source, key, del) + (if row_matched(
            target.last(),
            source,
            key,
        ) || !del(target.last()) {
            seq![target.last()]
        } else {
            Seq::empty()
        })
    }
}

/// Law: a merge with only the delete policy set deletes exactly the
/// unmatched target rows the delete predicate selects, leaving every other
/// row — matched rows, and unmatched rows the predicate does not select —
/// intact and in order, and inserts and updates nothing.
pub proof fn lemma_merge_delete_respects_filter(
    target: RowsView,
    source: RowsView,
    cfg: MergeConfig,
    key: spec_fn(RowView) -> RowView,
    upd: spec_fn(RowView) -> RowsView,
    del: spec_fn(RowView) -> bool,
)
    requires
        cfg.delete_unmatched,
        !cfg.update_all,
        !cfg.insert_all,
    ensures
        merge_result(target, source, cfg, key, upd, del) == rows_kept_after_delete(
            target,
            source,
            key,
            del,
        ),
    decreases target.len(),
{
    if target.len() == 0 {
        assert(merge_result(target, source, cfg, key, upd, del) =~= rows_kept_after_delete(
            target,
            source,
            key,
            del,
        ));
    } else {
        lemma_merge_delete_respects_filter(target.drop_last(), source, cfg, key, upd, del);
        assert(merge_result(target.drop_last(), source, cfg, key, upd, del) == merged_existing(
            target.drop_last(),
            source,
            cfg,
            key,
            upd,
            del,
        ) + Seq::<RowView>::empty());
        assert(merged_existing(target.drop_last(), source, cfg, key, upd, del) =~= merge_result(
            target.drop_last(),
            source,
            cfg,
            key,
            upd,
            del,
        ));
        assert(merge_result(target, source, cfg, key, upd, del) =~= rows_kept_after_delete(
            target,
            source,
            key,
            del,
        ));
    }
}

} // verus!
