//! The dataset row codec.
//!
//! Dataset persistence writes one row per analyzed file. Multi-valued
//! finding and weakness-identifier lists are serialized as a single
//! whitespace-joined string per cell; an empty cell stands for an empty
//! list. The join is lossy for an item that itself holds a space, or for a
//! single empty item — a known limitation of the format.

use vstd::prelude::*;
use vstd::string::StrSliceExecFns;

use crate::record::{AnalyzedFile, AnalyzedFileView};
use crate::text::{join_space, lemma_split_join, spec_join_with, spec_split_on, split_on};

verus! {

/// One persisted dataset row: the six cells, multi-valued cells joined
/// into one string each.
pub struct DatasetRow {
    pub repo_url: String,
    pub commit_hash: String,
    pub repo_file_path: String,
    pub code: String,
    pub flawfinder_results: Option<String>,
    pub flawfinder_cwes: Option<String>,
}

/// The mathematical shadow of a [`DatasetRow`].
#[verifier::ext_equal]
pub struct DatasetRowView {
    pub repo_url: Seq<char>,
    pub commit_hash: Seq<char>,
    pub repo_file_path: Seq<char>,
    pub code: Seq<char>,
    pub flawfinder_results: Option<Seq<char>>,
    pub flawfinder_cwes: Option<Seq<char>>,
}

impl View for DatasetRow {
    type V = DatasetRowView;

    open spec fn view(&self) -> DatasetRowView {
        DatasetRowView {
            repo_url: self.repo_url@,
            commit_hash: self.commit_hash@,
            repo_file_path: self.repo_file_path@,
            code: self.code@,
            flawfinder_results: self.flawfinder_results.deep_view(),
            flawfinder_cwes: self.flawfinder_cwes.deep_view(),
        }
    }
}

/// A multi-valued cell's serialized form: its items joined with single
/// spaces; an absent list stays absent.
pub open spec fn spec_encode_cell(items: Option<Seq<Seq<char>>>) -> Option<Seq<char>> {
    match items {
        None => None,
        Some(l) => Some(spec_join_with(l, ' ')),
    }
}

/// A serialized cell read back: an empty cell is an empty list, anything
/// else splits on spaces.
pub open spec fn spec_decode_cell(cell: Option<Seq<char>>) -> Option<Seq<Seq<char>>> {
    match cell {
        None => None,
        Some(s) => if s.len() == 0 {
            Some(Seq::empty())
        } else {
            Some(spec_split_on(s, ' '))
        },
    }
}

/// What encoding a record into a row yields.
pub open spec fn spec_encode_row(v: AnalyzedFileView) -> DatasetRowView {
    DatasetRowView {
        repo_url: v.repo_url,
        commit_hash: v.commit_hash,
        repo_file_path: v.repo_file_path,
        code: v.code,
        flawfinder_results: spec_encode_cell(v.flawfinder_results),
        flawfinder_cwes: spec_encode_cell(v.flawfinder_cwes),
    }
}

/// What reading a row back into a record yields.
pub open spec fn spec_decode_row(r: DatasetRowView) -> AnalyzedFileView {
    AnalyzedFileView {
        repo_url: r.repo_url,
        commit_hash: r.commit_hash,
        repo_file_path: r.repo_file_path,
        code: r.code,
        flawfinder_results: spec_decode_cell(r.flawfinder_results),
        flawfinder_cwes: spec_decode_cell(r.flawfinder_cwes),
    }
}

/// A multi-valued cell round-trips exactly when no item holds a space and
/// no item is itself empty.
pub open spec fn wf_cell(items: Option<Seq<Seq<char>>>) -> bool {
    match items {
        None => true,
        Some(l) => forall|i: int|
            0 <= i < l.len() ==> (#[trigger] l[i]).len() > 0 && !l[i].contains(' '),
    }
}

/// Serializing a multi-valued cell and reading it back recovers the list,
/// for well-formed cells.
pub proof fn lemma_cell_round_trip(items: Option<Seq<Seq<char>>>)
    requires
        wf_cell(items),
    ensures
        spec_decode_cell(spec_encode_cell(items)) == items,
{
    match items {
        None => {},
        Some(l) => {
            if l.len() == 0 {
                assert(spec_join_with(l, ' ').len() == 0);
                assert(spec_decode_cell(spec_encode_cell(items)) == Some(Seq::<Seq<char>>::empty()));
                assert(Seq::<Seq<char>>::empty() =~= l);
            } else {
                let s = spec_join_with(l, ' ');
                if l.len() == 1 {
                    assert(s == l[0]);
                    assert(s.len() > 0);
                } else {
                    assert(s == l[0] + seq![' '] + spec_join_with(l.drop_first(), ' '));
                    assert(s.len() > 0);
                }
                lemma_split_join(l, ' ');
            }
        },
    }
}

/// An [`AnalyzedFile`] round-tripped through the row codec keeps its
/// repository identifier, commit hash, file path and code text exactly,
/// whatever its analyzer cells hold; the analyzer cells themselves are
/// kept for well-formed lists (no item empty or holding a space).
pub proof fn lemma_row_round_trip(v: AnalyzedFileView)
    ensures
        spec_decode_row(spec_encode_row(v)).repo_url == v.repo_url,
        spec_decode_row(spec_encode_row(v)).commit_hash == v.commit_hash,
        spec_decode_row(spec_encode_row(v)).repo_file_path == v.repo_file_path,
        spec_decode_row(spec_encode_row(v)).code == v.code,
        wf_cell(v.flawfinder_results) && wf_cell(v.flawfinder_cwes) ==> spec_decode_row(
            spec_encode_row(v),
        ) == v,
{
    if wf_cell(v.flawfinder_results) && wf_cell(v.flawfinder_cwes) {
        lemma_cell_round_trip(v.flawfinder_results);
        lemma_cell_round_trip(v.flawfinder_cwes);
        assert(spec_decode_row(spec_encode_row(v)) =~= v);
    }
}

/// Serializes one multi-valued cell.
fn encode_cell(items: &Option<Vec<String>>) -> (r: Option<String>)
    ensures
        r.deep_view() == spec_encode_cell(items.deep_view()),
{
    match items {
        None => None,
        Some(l) => Some(join_space(l)),
    }
}

/// Reads one multi-valued cell back.
fn decode_cell(cell: &Option<String>) -> (r: Option<Vec<String>>)
    ensures
        r.deep_view() == spec_decode_cell(cell.deep_view()),
{
    match cell {
        None => None,
        Some(s) => {
            if s.as_str().unicode_len() == 0 {
                let empty: Vec<String> = Vec::new();
                proof {
                    assert(empty.deep_view() =~= Seq::<Seq<char>>::empty());
                }
                Some(empty)
            } else {
                Some(split_on(s.as_str(), ' '))
            }
        },
    }
}

/// Encodes one analyzed file into its persisted row.
pub fn encode_record(record: &AnalyzedFile) -> (row: DatasetRow)
    ensures
        row@ == spec_encode_row(record@),
{
    let row = DatasetRow {
        repo_url: record.repo_url.clone(),
        commit_hash: record.commit_hash.clone(),
        repo_file_path: record.repo_file_path.clone(),
        code: record.code.clone(),
        flawfinder_results: encode_cell(&record.flawfinder_results),
        flawfinder_cwes: encode_cell(&record.flawfinder_cwes),
    };
    proof {
        assert(row@ =~= spec_encode_row(record@));
    }
    row
}

/// Reads one persisted row back into an analyzed file.
pub fn decode_row(row: &DatasetRow) -> (record: AnalyzedFile)
    ensures
        record@ == spec_decode_row(row@),
{
    let record = AnalyzedFile {
        repo_url: row.repo_url.clone(),
        commit_hash: row.commit_hash.clone(),
        repo_file_path: row.repo_file_path.clone(),
        code: row.code.clone(),
        flawfinder_results: decode_cell(&row.flawfinder_results),
        flawfinder_cwes: decode_cell(&row.flawfinder_cwes),
    };
    proof {
        assert(record@ =~= spec_decode_row(row@));
    }
    record
}

} // verus!
