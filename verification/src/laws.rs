use vstd::prelude::*;
use crate::prospect::ProspectView;
use crate::table::{spec_delete, spec_read_by_id, spec_update, spec_update_row, lemma_read_skip};

verus! {

/// Reading a key that no row of the table holds finds nothing — an
/// ordinary "not found" outcome, never an error.
pub proof fn lemma_read_absent(t: Seq<ProspectView>, id: Seq<char>)
    requires
        forall|i: int| 0 <= i < t.len() ==> t[i].id != id,
    ensures
        spec_read_by_id(t, id) is None,
{
    lemma_read_skip(t, id, t.len() as int);
}

/// Inserting a row whose key the table does not yet hold, then reading by
/// that key, gives back exactly the inserted row.
pub proof fn lemma_insert_then_read(t: Seq<ProspectView>, p: ProspectView)
    requires
        forall|i: int| 0 <= i < t.len() ==> t[i].id != p.id,
    ensures
        spec_read_by_id(t.push(p), p.id) == Some(p),
{
    let extended = t.push(p);
    assert(forall|i: int| 0 <= i < t.len() ==> extended[i].id != p.id);
    lemma_read_skip(extended, p.id, t.len() as int);
    let rest = extended.subrange(t.len() as int, extended.len() as int);
    assert(rest[0] == p);
}

/// An update aimed at a key changes exactly the four targeted fields —
/// player, position, draft year and projected SPM — on every matching row,
/// and leaves the key, the other four scores, and every other row as they
/// were.
pub proof fn lemma_update_targets_only(
    t: Seq<ProspectView>,
    id: Seq<char>,
    new_player: Seq<char>,
    new_position: Seq<char>,
    new_draft_year: int,
    new_projected_spm: Seq<char>,
)
    ensures
        spec_update(t, id, new_player, new_position, new_draft_year, new_projected_spm).len()
            == t.len(),
        forall|i: int| 0 <= i < t.len() && t[i].id == id ==> spec_update(
            t,
            id,
            new_player,
            new_position,
            new_draft_year,
            new_projected_spm,
        )[i] == (ProspectView {
            player: new_player,
            position: new_position,
            draft_year: new_draft_year,
            projected_spm: new_projected_spm,
            ..t[i]
        }),
        forall|i: int| 0 <= i < t.len() && t[i].id != id ==> spec_update(
            t,
            id,
            new_player,
            new_position,
            new_draft_year,
            new_projected_spm,
        )[i] == t[i],
{
    assert(forall|i: int| 0 <= i < t.len() ==> spec_update(
        t,
        id,
        new_player,
        new_position,
        new_draft_year,
        new_projected_spm,
    )[i] == spec_update_row(t[i], id, new_player, new_position, new_draft_year, new_projected_spm));
}

/// Deleting a key removes it for good: a read by that key on the table
/// that remains finds nothing.
pub proof fn lemma_delete_then_read(t: Seq<ProspectView>, id: Seq<char>)
    ensures
        spec_read_by_id(spec_delete(t, id), id) is None,
{
    let kept = spec_delete(t, id);
    assert forall|i: int| 0 <= i < kept.len() implies kept[i].id != id by {
        t.lemma_filter_pred(|p: ProspectView| p.id != id, i);
    }
    lemma_read_absent(kept, id);
}

} // verus!
