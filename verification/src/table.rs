use vstd::prelude::*;
use crate::prospect::{Prospect, ProspectView};
use crate::text::str_eq;

verus! {

/// The prospect table: the rows of the store, in storage order.
pub struct Table {
    rows: Vec<Prospect>,
}

impl View for Table {
    type V = Seq<ProspectView>;

    closed spec fn view(&self) -> Seq<ProspectView> {
        self.rows@.map_values(|p: Prospect| p@)
    }
}

/// The first row of `t` whose key is `id`, or `None` where no row matches.
pub open spec fn spec_read_by_id(t: Seq<ProspectView>, id: Seq<char>) -> Option<ProspectView>
    decreases t.len(),
{
    if t.len() == 0 {
        None
    } else if t[0].id == id {
        Some(t[0])
    } else {
        spec_read_by_id(t.drop_first(), id)
    }
}

/// Rows whose first `i` entries hold no key `id` read the same as the rest
/// of the table alone.
pub proof fn lemma_read_skip(t: Seq<ProspectView>, id: Seq<char>, i: int)
    requires
        0 <= i <= t.len(),
        forall|j: int| 0 <= j < i ==> t[j].id != id,
    ensures
        spec_read_by_id(t, id) == spec_read_by_id(t.subrange(i, t.len() as int), id),
    decreases i,
{
    if i == 0 {
        assert(t.subrange(0, t.len() as int) =~= t);
    } else {
        lemma_read_skip(t, id, i - 1);
        let prev = t.subrange(i - 1, t.len() as int);
        assert(prev[0] == t[i - 1]);
        assert(prev.drop_first() =~= t.subrange(i, t.len() as int));
    }
}

/// One row after an update aimed at key `id`: the four targeted fields are
/// replaced on a match, and nothing changes otherwise.
pub open spec fn spec_update_row(
    p: ProspectView,
    id: Seq<char>,
    new_player: Seq<char>,
    new_position: Seq<char>,
    new_draft_year: int,
    new_projected_spm: Seq<char>,
) -> ProspectView {
    if p.id == id {
        ProspectView {
            player: new_player,
            position: new_position,
            draft_year: new_draft_year,
            projected_spm: new_projected_spm,
            ..p
        }
    } else {
        p
    }
}

/// The whole table after an update aimed at key `id`.
pub open spec fn spec_update(
    t: Seq<ProspectView>,
    id: Seq<char>,
    new_player: Seq<char>,
    new_position: Seq<char>,
    new_draft_year: int,
    new_projected_spm: Seq<char>,
) -> Seq<ProspectView> {
    t.map_values(
        |p: ProspectView| spec_update_row(
            p,
            id,
            new_player,
            new_position,
            new_draft_year,
            new_projected_spm,
        ),
    )
}

/// The table after deleting key `id`: the rows that do not match, in order.
pub open spec fn spec_delete(t: Seq<ProspectView>, id: Seq<char>) -> Seq<ProspectView> {
    t.filter(|p: ProspectView| p.id != id)
}

impl Table {
    /// An empty table.
    pub fn new() -> (t: Table)
        ensures
            t@ == Seq::<ProspectView>::empty(),
    {
        let t = Table { rows: Vec::new() };
        proof {
            assert(t@ =~= Seq::<ProspectView>::empty());
        }
        t
    }

    /// Append one already-built row.
    pub fn push_row(&mut self, p: Prospect)
        ensures
            final(self)@ == old(self)@.push(p@),
    {
        let ghost before = self@;
        let ghost pv = p@;
        self.rows.push(p);
        proof {
            assert(self@ =~= before.push(pv));
        }
    }

    /// Append one row. Nothing is checked of the key: a duplicate simply
    /// becomes a second row.
    pub fn insert_record(
        &mut self,
        player: &str,
        position: &str,
        id: &str,
        draft_year: i32,
        projected_spm: &str,
        superstar: &str,
        starter: &str,
        role_player: &str,
        bust: &str,
    )
        ensures
            final(self)@ == old(self)@.push(
                (ProspectView {
                    player: player@,
                    position: position@,
                    id: id@,
                    draft_year: draft_year as int,
                    projected_spm: projected_spm@,
                    superstar: superstar@,
                    starter: starter@,
                    role_player: role_player@,
                    bust: bust@,
                }),
            ),
    {
        let row = Prospect {
            player: player.to_owned(),
            position: position.to_owned(),
            id: id.to_owned(),
            draft_year,
            projected_spm: projected_spm.to_owned(),
            superstar: superstar.to_owned(),
            starter: starter.to_owned(),
            role_player: role_player.to_owned(),
            bust: bust.to_owned(),
        };
        let ghost before = self@;
        let ghost rowv = row@;
        self.rows.push(row);
        proof {
            assert(self@ =~= before.push(rowv));
        }
    }

    /// Every row, in storage order.
    pub fn read_records(&self) -> (r: Vec<Prospect>)
        ensures
            r@.len() == self@.len(),
            forall|i: int| 0 <= i < r@.len() ==> r@[i]@ == self@[i],
    {
        let mut out: Vec<Prospect> = Vec::new();
        let mut i: usize = 0;
        while i < self.rows.len()
            invariant
                i <= self.rows.len(),
                out@.len() == i,
                forall|j: int| 0 <= j < i ==> out@[j]@ == self@[j],
            decreases self.rows.len() - i,
        {
            out.push(self.rows[i].duplicate());
            i += 1;
        }
        out
    }

    /// The first row with key `id`, or `None` where the table holds none:
    /// absence is an ordinary outcome, not an error.
    pub fn read_record_by_id(&self, id: &str) -> (r: Option<Prospect>)
        ensures
            r matches Some(p) ==> spec_read_by_id(self@, id@) == Some(p@),
            r is None ==> spec_read_by_id(self@, id@) is None,
    {
        let mut i: usize = 0;
        while i < self.rows.len()
            invariant
                i <= self.rows.len(),
                forall|j: int| 0 <= j < i ==> self@[j].id != id@,
            decreases self.rows.len() - i,
        {
            if str_eq(self.rows[i].id.as_str(), id) {
                proof {
                    lemma_read_skip(self@, id@, i as int);
                    assert(self@.subrange(i as int, self@.len() as int)[0] == self@[i as int]);
                }
                return Some(self.rows[i].duplicate());
            }
            i += 1;
        }
        proof {
            lemma_read_skip(self@, id@, self@.len() as int);
            assert(self@.subrange(self@.len() as int, self@.len() as int).len() == 0);
        }
        None
    }

    /// Overwrite player, position, draft year and projected SPM on every
    /// row with key `id`; the key and the other four scores are untouched.
    /// A key that matches nothing leaves the table as it was.
    pub fn update_record(
        &mut self,
        id: &str,
        new_player: &str,
        new_position: &str,
        new_draft_year: i32,
        new_projected_spm: &str,
    )
        ensures
            final(self)@ == spec_update(
                old(self)@,
                id@,
                new_player@,
                new_position@,
                new_draft_year as int,
                new_projected_spm@,
            ),
    {
        let ghost goal = spec_update(
            self@,
            id@,
            new_player@,
            new_position@,
            new_draft_year as int,
            new_projected_spm@,
        );
        let mut out: Vec<Prospect> = Vec::new();
        let mut i: usize = 0;
        while i < self.rows.len()
            invariant
                i <= self.rows.len(),
                out@.len() == i,
                goal == spec_update(
                    self@,
                    id@,
                    new_player@,
                    new_position@,
                    new_draft_year as int,
                    new_projected_spm@,
                ),
                goal.len() == self@.len(),
                forall|j: int| 0 <= j < i ==> out@[j]@ == goal[j],
            decreases self.rows.len() - i,
        {
            let row = &self.rows[i];
            if str_eq(row.id.as_str(), id) {
                out.push(
                    Prospect {
                        player: new_player.to_owned(),
                        position: new_position.to_owned(),
                        id: row.id.clone(),
                        draft_year: new_draft_year,
                        projected_spm: new_projected_spm.to_owned(),
                        superstar: row.superstar.clone(),
                        starter: row.starter.clone(),
                        role_player: row.role_player.clone(),
                        bust: row.bust.clone(),
                    },
                );
            } else {
                out.push(row.duplicate());
            }
            i += 1;
        }
        self.rows = out;
        proof {
            assert(self@ =~= goal);
        }
    }

    /// Remove every row with key `id`, keeping the rest in order. A key
    /// that matches nothing leaves the table as it was.
    pub fn delete_record(&mut self, id: &str)
        ensures
            final(self)@ == spec_delete(old(self)@, id@),
    {
        let ghost orig = self@;
        let mut out: Vec<Prospect> = Vec::new();
        let mut i: usize = 0;
        while i < self.rows.len()
            invariant
                i <= self.rows.len(),
                orig == self@,
                out@.map_values(|p: Prospect| p@) == spec_delete(orig.subrange(0, i as int), id@),
            decreases self.rows.len() - i,
        {
            let ghost prefix = orig.subrange(0, i as int);
            let ghost extended = orig.subrange(0, i as int + 1);
            let row = &self.rows[i];
            if !str_eq(row.id.as_str(), id) {
                out.push(row.duplicate());
            }
            i += 1;
            proof {
                assert(extended.drop_last() =~= prefix);
                assert(extended.last() == orig[i - 1]);
                reveal(Seq::filter);
                assert(out@.map_values(|p: Prospect| p@) =~= spec_delete(extended, id@));
            }
        }
        self.rows = out;
        proof {
            assert(orig.subrange(0, orig.len() as int) =~= orig);
        }
    }
}

} // verus!
