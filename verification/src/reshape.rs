use crate::error::ExportError;
use crate::json::{models, parse_json, parsed_json, Json, JsonModel};
use crate::record::{distinct_names, lemma_index_of, lemma_put, put, Record, RecordModel};
use vstd::prelude::*;

verus! {

/// The value at `index` of a row; `Null` where the row has no such value.
pub open spec fn cell(row: JsonModel, index: int) -> JsonModel {
    match row.element(index) {
        Some(value) => value,
        None => JsonModel::Null,
    }
}

/// The record that the first `n` columns make of a row: column by column, the
/// column's name is set to the value at the column's position in the row. A
/// column whose name is no string is passed over.
pub open spec fn row_record(columns: Seq<JsonModel>, row: JsonModel, n: nat) -> RecordModel
    decreases n,
{
    if n == 0 {
        Seq::empty()
    } else {
        let before = row_record(columns, row, (n - 1) as nat);
        match columns[n - 1].text() {
            Some(name) => put(before, name, cell(row, n - 1)),
            None => before,
        }
    }
}

/// The record that a list of columns makes of a row.
pub open spec fn record_of(columns: Seq<JsonModel>, row: JsonModel) -> RecordModel {
    row_record(columns, row, columns.len())
}

/// The records of one series: one for each of its value rows, in order. A
/// series without a list of columns or without a list of rows has none.
pub open spec fn series_records(series: JsonModel) -> Seq<RecordModel> {
    match (series.member("columns"@), series.member("values"@)) {
        (Some(JsonModel::Array(columns)), Some(JsonModel::Array(rows))) => Seq::new(
            rows.len(),
            |i: int| record_of(columns, rows[i]),
        ),
        _ => Seq::empty(),
    }
}

/// The records of a list of series: those of each series, in order.
pub open spec fn all_records(series: Seq<JsonModel>) -> Seq<RecordModel>
    decreases series.len(),
{
    if series.len() == 0 {
        Seq::empty()
    } else {
        all_records(series.drop_last()) + series_records(series.last())
    }
}

/// The list of series in a response: what stands under `results`, first
/// element, `series`, where that is an array.
pub open spec fn series_list(response: JsonModel) -> Option<Seq<JsonModel>> {
    match response.member("results"@) {
        Some(results) => match results.element(0) {
            Some(first) => match first.member("series"@) {
                Some(series) => series.items(),
                None => None,
            },
            None => None,
        },
        None => None,
    }
}

/// The records that a response holds; none where it has no list of series.
pub open spec fn page_records(response: JsonModel) -> Seq<RecordModel> {
    match series_list(response) {
        Some(series) => all_records(series),
        None => Seq::empty(),
    }
}

/// The values of a sequence of records.
pub open spec fn record_models(records: Seq<Record>) -> Seq<RecordModel> {
    Seq::new(records.len(), |i: int| records[i]@)
}

/// A record has distinct names and no more fields than there are columns.
pub proof fn lemma_row_record(columns: Seq<JsonModel>, row: JsonModel, n: nat)
    requires
        n <= columns.len(),
    ensures
        distinct_names(row_record(columns, row, n)),
        row_record(columns, row, n).len() <= n,
    decreases n,
{
    if n > 0 {
        lemma_row_record(columns, row, (n - 1) as nat);
        let before = row_record(columns, row, (n - 1) as nat);
        match columns[n - 1].text() {
            Some(name) => {
                lemma_put(before, name, cell(row, n - 1));
            },
            None => {},
        }
    }
}

/// Whether every column name is a string and no two are the same.
pub open spec fn distinct_columns(columns: Seq<JsonModel>) -> bool {
    &&& forall|i: int| 0 <= i < columns.len() ==> (#[trigger] columns[i].text()) is Some
    &&& forall|i: int, j: int|
        0 <= i < j < columns.len() ==> #[trigger] columns[i].text() != #[trigger] columns[j].text()
}

/// The first `n` columns, each with the value at its position in the row.
pub open spec fn zipped(columns: Seq<JsonModel>, row: JsonModel, n: nat) -> RecordModel {
    Seq::new(n, |i: int| (columns[i].text()->0, cell(row, i)))
}

/// Where the column names are strings and distinct, the record has one field
/// for each column, in the order of the columns: the column's name with the
/// value at the column's position in the row.
pub proof fn lemma_record_of_distinct_columns(columns: Seq<JsonModel>, row: JsonModel, n: nat)
    requires
        distinct_columns(columns),
        n <= columns.len(),
    ensures
        row_record(columns, row, n) == zipped(columns, row, n),
    decreases n,
{
    if n == 0 {
        assert(row_record(columns, row, n) =~= zipped(columns, row, n));
    } else {
        let m = (n - 1) as nat;
        lemma_record_of_distinct_columns(columns, row, m);
        let before = zipped(columns, row, m);
        let name = columns[n - 1].text()->0;
        assert(columns[n - 1].text() is Some);
        assert forall|j: int| 0 <= j < before.len() implies before[j].0 != name by {
            assert(columns[j].text() is Some);
            assert(columns[j].text() != columns[n - 1].text());
        }
        lemma_index_of(before, name, before.len() as int);
        assert(put(before, name, cell(row, n - 1)) =~= zipped(columns, row, n));
    }
}

/// Makes the record of one row.
pub fn reshape_row(columns: &Vec<Json>, row: &Json) -> (record: Record)
    ensures
        record@ == record_of(models(columns@), row@),
        record@.len() <= columns@.len(),
        distinct_names(record@),
{
    let mut record = Record::new();
    let mut i: usize = 0;
    while i < columns.len()
        invariant
            i <= columns.len(),
            record@ == row_record(models(columns@), row@, i as nat),
        decreases columns.len() - i,
    {
        match columns[i].as_str() {
            Some(name) => {
                let value = match row.element(i) {
                    Some(found) => found.clone(),
                    None => Json::Null,
                };
                record.insert(String::from_str(name), value);
            },
            None => {},
        }
        i += 1;
    }
    proof {
        lemma_row_record(models(columns@), row@, columns@.len());
    }
    record
}

/// Makes the records of one series.
pub fn reshape_series(series: &Json) -> (records: Vec<Record>)
    ensures
        record_models(records@) == series_records(series@),
{
    let mut records: Vec<Record> = Vec::new();
    let columns = match series.member("columns") {
        Some(found) => found.as_array(),
        None => None,
    };
    let rows = match series.member("values") {
        Some(found) => found.as_array(),
        None => None,
    };
    match (columns, rows) {
        (Some(columns), Some(rows)) => {
            let mut i: usize = 0;
            while i < rows.len()
                invariant
                    i <= rows.len(),
                    records@.len() == i,
                    forall|j: int|
                        0 <= j < i ==> records@[j]@ == record_of(models(columns@), rows@[j]@),
                decreases rows.len() - i,
            {
                records.push(reshape_row(columns, &rows[i]));
                i += 1;
            }
            assert(record_models(records@) =~= series_records(series@));
        },
        _ => {
            assert(record_models(records@) =~= series_records(series@));
        },
    }
    records
}

/// Makes the records of a response: those of each of its series, in order.
pub fn reshape_page(response: &Json) -> (records: Vec<Record>)
    ensures
        record_models(records@) == page_records(response@),
{
    let mut records: Vec<Record> = Vec::new();
    let results = match response.member("results") {
        Some(found) => found.element(0),
        None => None,
    };
    let series = match results {
        Some(first) => match first.member("series") {
            Some(found) => found.as_array(),
            None => None,
        },
        None => None,
    };
    match series {
        Some(series) => {
            let ghost list = models(series@);
            assert(series_list(response@) == Some(list));
            let mut i: usize = 0;
            assert(list.take(0) =~= Seq::empty());
            assert(record_models(records@) =~= all_records(list.take(0)));
            while i < series.len()
                invariant
                    i <= series.len(),
                    list == models(series@),
                    record_models(records@) == all_records(list.take(i as int)),
                decreases series.len() - i,
            {
                let ghost before = record_models(records@);
                let mut more = reshape_series(&series[i]);
                let ghost added = record_models(more@);
                records.append(&mut more);
                proof {
                    assert(list.take(i + 1).drop_last() =~= list.take(i as int));
                    assert(list.take(i + 1).last() == series@[i as int]@);
                    assert(record_models(records@) =~= before + added);
                }
                i += 1;
            }
            assert(list.take(i as int) =~= list);
        },
        None => {
            assert(series_list(response@) is None);
            assert(record_models(records@) =~= page_records(response@));
        },
    }
    records
}

/// The records of the page in a response whose text has the value `parsed`;
/// `None` where the text is no JSON text.
pub open spec fn page_outcome(parsed: Option<JsonModel>) -> Option<Seq<RecordModel>> {
    match parsed {
        Some(response) => Some(page_records(response)),
        None => None,
    }
}

/// Reads the records out of the text of a response to a page query.
pub fn read_page(text: &str) -> (page: Result<Vec<Record>, ExportError>)
    ensures
        match page {
            Ok(records) => page_outcome(parsed_json(text@)) == Some(record_models(records@)),
            Err(error) => parsed_json(text@) is None && error is ParseFailure,
        },
{
    match parse_json(text) {
        Ok(response) => Ok(reshape_page(&response)),
        Err(error) => Err(error),
    }
}

} // verus!
