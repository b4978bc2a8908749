use crate::error::ExportError;
use crate::json::{models, parse_json, parsed_json, Json, JsonModel};
use vstd::prelude::*;

verus! {

/// The list of per-field counts in the response to a count query: what stands
/// under `results`, first element, `series`, first element, `values`, first
/// element, where that is an array.
pub open spec fn count_list(response: JsonModel) -> Option<Seq<JsonModel>> {
    match response.member("results"@) {
        Some(results) => match results.element(0) {
            Some(first) => match first.member("series"@) {
                Some(series) => match series.element(0) {
                    Some(only) => match only.member("values"@) {
                        Some(rows) => match rows.element(0) {
                            Some(row) => row.items(),
                            None => None,
                        },
                        None => None,
                    },
                    None => None,
                },
                None => None,
            },
            None => None,
        },
        None => None,
    }
}

/// Whether `n` is the largest count of the list: some entry is the
/// non-negative integer `n`, and no entry is a larger one.
pub open spec fn is_largest(counts: Seq<JsonModel>, n: u64) -> bool {
    &&& exists|i: int| 0 <= i < counts.len() && #[trigger] counts[i].unsigned() == Some(n)
    &&& forall|i: int|
        0 <= i < counts.len() ==> match #[trigger] counts[i].unsigned() {
            Some(other) => other <= n,
            None => true,
        }
}

/// Whether no entry of the list is a non-negative integer.
pub open spec fn has_no_count(counts: Seq<JsonModel>) -> bool {
    forall|i: int| 0 <= i < counts.len() ==> #[trigger] counts[i].unsigned() is None
}

/// The row count that a response to a count query gives: the largest of its
/// per-field counts. `None` where the response has no list of counts, and
/// where no entry of the list is a non-negative integer.
pub open spec fn resolved_count(response: JsonModel) -> Option<u64> {
    match count_list(response) {
        Some(counts) => if has_no_count(counts) {
            None
        } else {
            Some(choose|n: u64| is_largest(counts, n))
        },
        None => None,
    }
}

/// A list has at most one largest count.
pub proof fn lemma_largest_unique(counts: Seq<JsonModel>, a: u64, b: u64)
    requires
        is_largest(counts, a),
        is_largest(counts, b),
    ensures
        a == b,
{
    let i = choose|i: int| 0 <= i < counts.len() && #[trigger] counts[i].unsigned() == Some(a);
    let j = choose|j: int| 0 <= j < counts.len() && #[trigger] counts[j].unsigned() == Some(b);
    assert(counts[i].unsigned() == Some(a));
    assert(counts[j].unsigned() == Some(b));
}

/// The largest of a list of per-field counts.
pub fn largest_count(counts: &Vec<Json>) -> (found: Option<u64>)
    ensures
        match found {
            Some(n) => is_largest(models(counts@), n),
            None => has_no_count(models(counts@)),
        },
{
    let ghost list = models(counts@);
    let mut best: Option<u64> = None;
    let mut i: usize = 0;
    while i < counts.len()
        invariant
            i <= counts.len(),
            list == models(counts@),
            match best {
                Some(n) => is_largest(list.take(i as int), n),
                None => has_no_count(list.take(i as int)),
            },
        decreases counts.len() - i,
    {
        let ghost seen = list.take(i as int);
        let ghost next = list.take(i + 1);
        let entry = counts[i].as_u64();
        proof {
            assert(next.len() == i + 1);
            assert(forall|j: int| 0 <= j < i ==> next[j] == seen[j]);
            assert(next[i as int] == counts@[i as int]@);
        }
        match (best, entry) {
            (Some(n), Some(m)) => {
                if m > n {
                    best = Some(m);
                    assert(next[i as int].unsigned() == Some(m));
                } else {
                    let ghost w = choose|w: int|
                        0 <= w < seen.len() && #[trigger] seen[w].unsigned() == Some(n);
                    assert(next[w].unsigned() == Some(n));
                }
            },
            (Some(n), None) => {
                let ghost w = choose|w: int|
                    0 <= w < seen.len() && #[trigger] seen[w].unsigned() == Some(n);
                assert(next[w].unsigned() == Some(n));
            },
            (None, Some(m)) => {
                best = Some(m);
                assert(next[i as int].unsigned() == Some(m));
            },
            (None, None) => {},
        }
        i += 1;
    }
    assert(list.take(i as int) =~= list);
    best
}

/// Finds the row count in the response to a count query.
pub fn resolve_count(response: &Json) -> (count: Result<u64, ExportError>)
    ensures
        match count {
            Ok(n) => resolved_count(response@) == Some(n),
            Err(error) => resolved_count(response@) is None && error
                == ExportError::CountUnavailable,
        },
{
    let results = match response.member("results") {
        Some(found) => found.element(0),
        None => None,
    };
    let series = match results {
        Some(first) => match first.member("series") {
            Some(found) => found.element(0),
            None => None,
        },
        None => None,
    };
    let row = match series {
        Some(only) => match only.member("values") {
            Some(found) => found.element(0),
            None => None,
        },
        None => None,
    };
    let counts = match row {
        Some(found) => found.as_array(),
        None => None,
    };
    match counts {
        Some(counts) => {
            assert(count_list(response@) == Some(models(counts@)));
            match largest_count(counts) {
                Some(n) => {
                    proof {
                        let list = models(counts@);
                        let w = choose|w: int|
                            0 <= w < list.len() && #[trigger] list[w].unsigned() == Some(n);
                        assert(!has_no_count(list));
                        lemma_largest_unique(list, n, choose|m: u64| is_largest(list, m));
                    }
                    Ok(n)
                },
                None => Err(ExportError::CountUnavailable),
            }
        },
        None => {
            assert(count_list(response@) is None);
            Err(ExportError::CountUnavailable)
        },
    }
}

/// The outcome of a count query whose response has the value `parsed`, or is
/// no JSON text where `parsed` is `None`.
pub open spec fn count_outcome(parsed: Option<JsonModel>) -> Option<u64> {
    match parsed {
        Some(response) => resolved_count(response),
        None => None,
    }
}

/// Reads the row count out of the text of a response to a count query.
pub fn read_count(text: &str) -> (count: Result<u64, ExportError>)
    ensures
        match count {
            Ok(n) => count_outcome(parsed_json(text@)) == Some(n),
            Err(error) => {
                &&& count_outcome(parsed_json(text@)) is None
                &&& parsed_json(text@) is None ==> error is ParseFailure
                &&& parsed_json(text@) is Some ==> error == ExportError::CountUnavailable
            },
        },
{
    match parse_json(text) {
        Ok(response) => resolve_count(&response),
        Err(error) => Err(error),
    }
}

} // verus!
