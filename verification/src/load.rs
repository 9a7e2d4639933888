use vstd::prelude::*;
use crate::prospect::{Prospect, ProspectView};
use crate::table::Table;
use crate::text::{draft_year_of_field, spec_draft_year};

verus! {

/// Loading failed because the CSV reader stopped on a malformed record
/// (for instance, text that is not valid UTF-8). The rows before the fault
/// are still applied, as the streaming load leaves them.
#[derive(Debug, PartialEq, Eq, Structural)]
pub enum LoadError {
    Csv,
}

/// What the CSV reader yields for the given bytes: the data rows (the
/// header row excluded) that precede the first malformed record, each as a
/// sequence of fields, and whether the whole input was read without fault.
/// The result depends on the bytes alone.
pub uninterp spec fn csv_scan(data: Seq<u8>) -> (Seq<Seq<Seq<char>>>, bool);

/// Relies on csv::Reader over an in-memory byte slice, with a header row
/// and no fixed field count: it yields the data rows in order, splitting
/// each at unquoted commas, and stops at the first malformed record.
#[verifier::external_body]
fn read_csv_records(data: &[u8]) -> (r: (Vec<Vec<String>>, bool))
    ensures
        r.0.deep_view() == csv_scan(data@).0,
        r.1 == csv_scan(data@).1,
{
    let mut rdr = csv::ReaderBuilder::new().has_headers(true).flexible(true).from_reader(data);
    let mut rows: Vec<Vec<String>> = Vec::new();
    for record in rdr.records() {
        match record {
            Ok(rec) => rows.push(rec.iter().map(|field| field.to_string()).collect()),
            Err(_) => return (rows, false),
        }
    }
    (rows, true)
}

/// The row a well-formed CSV record loads as: the first three fields
/// verbatim, the fourth under the draft-year policy, and the last five
/// verbatim as score text.
pub open spec fn spec_row_prospect(f: Seq<Seq<char>>) -> ProspectView {
    ProspectView {
        player: f[0],
        position: f[1],
        id: f[2],
        draft_year: spec_draft_year(f[3]),
        projected_spm: f[4],
        superstar: f[5],
        starter: f[6],
        role_player: f[7],
        bust: f[8],
    }
}

/// The table a sequence of CSV rows loads to: each row with at least nine
/// fields becomes one prospect, in order; shorter rows are skipped.
pub open spec fn spec_load(rows: Seq<Seq<Seq<char>>>) -> Seq<ProspectView>
    decreases rows.len(),
{
    if rows.len() == 0 {
        Seq::empty()
    } else {
        let rest = spec_load(rows.drop_last());
        if rows.last().len() >= 9 {
            rest.push(spec_row_prospect(rows.last()))
        } else {
            rest
        }
    }
}

/// Turn one CSV record into a prospect, or `None` where it has fewer than
/// nine fields and is to be skipped.
pub fn row_to_prospect(fields: &Vec<String>) -> (r: Option<Prospect>)
    ensures
        (r is Some) == (fields.deep_view().len() >= 9),
        r matches Some(p) ==> p@ == spec_row_prospect(fields.deep_view()),
{
    proof {
        assert(fields.deep_view().len() == fields@.len());
    }
    if fields.len() < 9 {
        return None;
    }
    let p = Prospect {
        player: fields[0].clone(),
        position: fields[1].clone(),
        id: fields[2].clone(),
        draft_year: draft_year_of_field(fields[3].as_str()),
        projected_spm: fields[4].clone(),
        superstar: fields[5].clone(),
        starter: fields[6].clone(),
        role_player: fields[7].clone(),
        bust: fields[8].clone(),
    };
    proof {
        assert(forall|i: int| 0 <= i < fields@.len() ==> fields.deep_view()[i] == fields@[i]@);
    }
    Some(p)
}

impl Table {
    /// Replace the whole table with what the given CSV bytes load to: the
    /// old rows are dropped whatever they were, and each well-formed data
    /// row of the input becomes one new row. An `Err` says the reader
    /// stopped early; the rows it did yield are loaded all the same.
    pub fn load_csv_to_db(&mut self, data: &[u8]) -> (r: Result<(), LoadError>)
        ensures
            final(self)@ == spec_load(csv_scan(data@).0),
            (r is Ok) == csv_scan(data@).1,
    {
        let (rows, complete) = read_csv_records(data);
        let ghost rv = rows.deep_view();
        let mut fresh = Table::new();
        let mut i: usize = 0;
        while i < rows.len()
            invariant
                i <= rows.len(),
                rv == rows.deep_view(),
                rv.len() == rows@.len(),
                fresh@ == spec_load(rv.subrange(0, i as int)),
            decreases rows.len() - i,
        {
            let ghost prefix = rv.subrange(0, i as int);
            let ghost extended = rv.subrange(0, i as int + 1);
            proof {
                assert(extended.drop_last() =~= prefix);
                assert(extended.last() == rv[i as int]);
                assert(rv[i as int] == rows@[i as int].deep_view());
            }
            match row_to_prospect(&rows[i]) {
                Some(p) => {
                    fresh.push_row(p);
                }
                None => {}
            }
            i += 1;
            proof {
                assert(fresh@ =~= spec_load(extended));
            }
        }
        proof {
            assert(rv.subrange(0, rv.len() as int) =~= rv);
        }
        *self = fresh;
        if complete {
            Ok(())
        } else {
            Err(LoadError::Csv)
        }
    }
}

} // verus!
