//! Laws relating the pipelines, proved over the store's row-sequence
//! model: what is ingested can be retrieved, filenames are canonicalized,
//! unknown keys miss, and deletion makes a key miss.

use vstd::prelude::*;
use crate::ids::{lemma_valid_id_has_no_dot, valid_id};
use crate::mime::ext_of;
use crate::pipeline::{missing_msg_of, retrieve_spec, OutcomeModel};
use crate::size::resolve_spec;
use crate::store::{
    lemma_lookup_push, lemma_lookup_remove, lookup, remove_row, rows_wf, RowModel,
};
use crate::strutil::{lemma_prefix_upto_concat, prefix_upto};

verus! {

/// After a fresh row is appended, retrieving its canonical filename
/// yields exactly its bytes and mimetype, for every size parameter whose
/// dimensions resolve.
pub proof fn lemma_ingested_image_retrievable(
    rows: Seq<RowModel>,
    row: RowModel,
    size_param: Option<Seq<char>>,
)
    requires
        rows_wf(rows),
        lookup(rows, row.id).is_none(),
        valid_id(row.id),
        resolve_spec(size_param, row.bytes).is_ok(),
    ensures
        retrieve_spec(rows.push(row), row.id + "."@ + ext_of(row.mimetype), size_param)
            matches OutcomeModel::Found(bytes, html, mimetype) && bytes == row.bytes && mimetype
            == row.mimetype,
{
    let ext = ext_of(row.mimetype);
    let filename = row.id + "."@ + ext;
    reveal_strlit(".");
    assert("."@ =~= seq!['.']);
    lemma_valid_id_has_no_dot(row.id);
    assert(filename == row.id + seq!['.'] + ext);
    lemma_prefix_upto_concat(row.id, ext, '.');
    assert(prefix_upto(filename, '.') == row.id);
    lemma_lookup_push(rows, row, row.id, 0);
    assert(lookup(rows.push(row), row.id) == Some(row));
}

/// A requested filename that differs from the canonical one (a missing or
/// wrong extension) redirects to the canonical gallery path, and the
/// canonical filename itself never redirects.
pub proof fn lemma_retrieve_canonicalizes(
    rows: Seq<RowModel>,
    filename: Seq<char>,
    size_param: Option<Seq<char>>,
)
    requires
        rows_wf(rows),
        lookup(rows, prefix_upto(filename, '.')).is_some(),
    ensures
        ({
            let key = prefix_upto(filename, '.');
            let row = lookup(rows, key).unwrap();
            let canonical = key + "."@ + ext_of(row.mimetype);
            &&& filename != canonical ==> retrieve_spec(rows, filename, size_param)
                == OutcomeModel::Redirect("/gallery/"@ + canonical)
            &&& filename == canonical ==> !(retrieve_spec(rows, filename, size_param)
                matches OutcomeModel::Redirect(_))
        }),
{
}

/// Retrieving a filename whose key no row bears misses, whatever suffix
/// the filename carries and whatever the size parameter is.
pub proof fn lemma_retrieve_unknown_missing(
    rows: Seq<RowModel>,
    filename: Seq<char>,
    size_param: Option<Seq<char>>,
)
    requires
        lookup(rows, prefix_upto(filename, '.')).is_none(),
    ensures
        retrieve_spec(rows, filename, size_param) == OutcomeModel::Missing(
            missing_msg_of(filename),
        ),
{
}

/// Two uploads whose generated ids differ never collide in the store:
/// after both rows are appended, each id finds exactly its own row, and
/// neither insert overwrote the other.
pub proof fn lemma_distinct_ids_coexist(rows: Seq<RowModel>, row1: RowModel, row2: RowModel)
    requires
        lookup(rows, row1.id).is_none(),
        lookup(rows, row2.id).is_none(),
        row1.id != row2.id,
    ensures
        lookup(rows.push(row1).push(row2), row1.id) == Some(row1),
        lookup(rows.push(row1).push(row2), row2.id) == Some(row2),
{
    lemma_lookup_push(rows, row1, row1.id, 0);
    lemma_lookup_push(rows, row1, row2.id, 0);
    lemma_lookup_push(rows.push(row1), row2, row1.id, 0);
    lemma_lookup_push(rows.push(row1), row2, row2.id, 0);
}

/// After a key is deleted, every retrieval under that key misses.
pub proof fn lemma_delete_then_retrieve_missing(
    rows: Seq<RowModel>,
    requested_id: Seq<char>,
    filename: Seq<char>,
    size_param: Option<Seq<char>>,
)
    requires
        rows_wf(rows),
        prefix_upto(filename, '.') == prefix_upto(requested_id, '.'),
    ensures
        retrieve_spec(
            remove_row(rows, prefix_upto(requested_id, '.')),
            filename,
            size_param,
        ) == OutcomeModel::Missing(missing_msg_of(filename)),
{
    lemma_lookup_remove(rows, prefix_upto(requested_id, '.'), prefix_upto(filename, '.'));
}

} // verus!
