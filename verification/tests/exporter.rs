use influx_export::error::ExportError;
use influx_export::exporter::{Action, Exporter, Reply, Stage};
use influx_export::json::{Json, Number};
use influx_export::paginator::Phase;
use influx_export::record::Record;

fn row(n: u64) -> Record {
    let mut made = Record::new();
    made.insert("time".to_string(), Json::Number(Number::Unsigned(n)));
    made
}

fn rows(from: u64, to: u64) -> Vec<Record> {
    (from..to).map(row).collect()
}

fn count_text(counts: &[u64]) -> String {
    let cells: Vec<String> = counts.iter().map(|n| n.to_string()).collect();
    format!(
        "{{\"results\":[{{\"series\":[{{\"name\":\"m\",\"columns\":[\"count\"],\"values\":[[{}]]}}]}}]}}",
        cells.join(",")
    )
}

fn page_text(from: u64, to: u64) -> String {
    let values: Vec<String> = (from..to).map(|n| format!("[{}]", n)).collect();
    format!(
        "{{\"results\":[{{\"series\":[{{\"columns\":[\"time\"],\"values\":[{}]}}]}}]}}",
        values.join(",")
    )
}

fn query(text: &str) -> Action {
    Action::Query(text.to_string())
}

fn write(path: &str) -> Action {
    Action::Write(path.to_string())
}

fn names(list: &[&str]) -> Vec<String> {
    list.iter().map(|name| name.to_string()).collect()
}

#[test]
fn export_of_nothing_finishes_at_once() {
    let export = Exporter::new(Vec::new());
    assert!(export.is_finished());
    assert_eq!(export.action(), Action::Finish);
    assert_eq!(export.current(), None);
}

#[test]
fn export_walks_one_measurement_page_by_page() {
    let mut export = Exporter::new(names(&["Load power"]));
    assert_eq!(export.current(), Some("Load power"));
    assert_eq!(export.stage(), Stage::Counting);
    assert_eq!(export.action(), query("SELECT COUNT(*) FROM \"Load power\""));

    assert_eq!(export.handle(Reply::Response(count_text(&[5, 4, 5]))), None);
    assert_eq!(export.stage(), Stage::Paging);
    assert_eq!(export.paginator().total(), 5);
    assert_eq!(export.action(), query("SELECT * FROM \"Load power\" OFFSET 0"));

    assert_eq!(export.handle(Reply::Response(page_text(0, 3))), None);
    assert_eq!(export.action(), query("SELECT * FROM \"Load power\" OFFSET 3"));

    assert_eq!(export.handle(Reply::Response(page_text(3, 5))), None);
    assert_eq!(export.stage(), Stage::Writing);
    assert_eq!(export.paginator().phase(), Phase::Done);
    assert_eq!(export.action(), write("data_json/Load_power.json"));
    assert_eq!(export.document(), &rows(0, 5));

    assert_eq!(export.handle(Reply::Written), None);
    assert!(export.is_finished());
    assert_eq!(export.action(), Action::Finish);
}

#[test]
fn measurement_whose_count_fails_is_skipped() {
    let mut export = Exporter::new(names(&["M1", "M2"]));
    assert_eq!(export.action(), query("SELECT COUNT(*) FROM \"M1\""));
    assert_eq!(
        export.handle(Reply::Response("{\"results\":[{\"statement_id\":0}]}".to_string())),
        Some(ExportError::CountUnavailable)
    );
    assert_eq!(export.current(), Some("M2"));
    assert_eq!(export.action(), query("SELECT COUNT(*) FROM \"M2\""));

    assert_eq!(export.handle(Reply::Response(count_text(&[2]))), None);
    assert_eq!(export.action(), query("SELECT * FROM \"M2\" OFFSET 0"));
    assert_eq!(export.handle(Reply::Response(page_text(0, 2))), None);
    assert_eq!(export.action(), write("data_json/M2.json"));
    assert_eq!(export.document(), &rows(0, 2));
    assert_eq!(export.handle(Reply::Written), None);
    assert_eq!(export.action(), Action::Finish);
}

#[test]
fn no_write_is_ever_asked_for_a_skipped_measurement() {
    let failures = vec![
        Reply::Response("no json".to_string()),
        Reply::Response("{}".to_string()),
        Reply::Response(count_text(&[])),
        Reply::Failure("exit status 1".to_string()),
    ];
    for failure in failures {
        let mut export = Exporter::new(names(&["M1", "M2"]));
        let mut asked: Vec<Action> = Vec::new();
        let mut first = Some(failure);
        let mut steps = 0;
        loop {
            let action = export.action();
            let reply = match &action {
                Action::Finish => break,
                Action::Write(_) => Reply::Written,
                Action::Query(text) if text.contains("COUNT") => match first.take() {
                    Some(failure) => failure,
                    None => Reply::Response(count_text(&[1])),
                },
                Action::Query(_) => Reply::Response(page_text(0, 1)),
            };
            asked.push(action);
            export.handle(reply);
            steps += 1;
            assert!(steps < 20);
        }
        assert!(!asked.contains(&write("data_json/M1.json")));
        assert!(asked.contains(&write("data_json/M2.json")));
    }
}

#[test]
fn failures_of_the_count_query_are_reported() {
    let mut export = Exporter::new(names(&["a", "b", "c"]));
    assert!(matches!(
        export.handle(Reply::Response("<html>".to_string())),
        Some(ExportError::ParseFailure(_))
    ));
    assert_eq!(export.current(), Some("b"));
    assert_eq!(
        export.handle(Reply::Failure("connection refused".to_string())),
        Some(ExportError::ExecutionFailure("connection refused".to_string()))
    );
    assert_eq!(export.current(), Some("c"));
    assert_eq!(
        export.handle(Reply::Response(count_text(&[]))),
        Some(ExportError::CountUnavailable)
    );
    assert!(export.is_finished());
}

#[test]
fn measurement_without_rows_is_written_empty() {
    let mut export = Exporter::new(names(&["empty one", "next"]));
    assert_eq!(export.handle(Reply::Response(count_text(&[0, 0]))), None);
    assert_eq!(export.stage(), Stage::Writing);
    assert_eq!(export.paginator().phase(), Phase::Done);
    assert_eq!(export.action(), write("data_json/empty_one.json"));
    assert!(export.document().is_empty());
    assert_eq!(export.handle(Reply::Written), None);
    assert_eq!(export.action(), query("SELECT COUNT(*) FROM \"next\""));
}

#[test]
fn page_failure_writes_what_was_held() {
    let mut export = Exporter::new(names(&["m", "n"]));
    export.handle(Reply::Response(count_text(&[4])));
    export.handle(Reply::Response(page_text(0, 2)));
    assert!(matches!(
        export.handle(Reply::Response("garbage".to_string())),
        Some(ExportError::ParseFailure(_))
    ));
    assert_eq!(export.paginator().phase(), Phase::Aborted);
    assert_eq!(export.action(), write("data_json/m.json"));
    assert_eq!(export.document(), &rows(0, 2));
    export.handle(Reply::Written);
    assert_eq!(export.action(), query("SELECT COUNT(*) FROM \"n\""));

    export.handle(Reply::Response(count_text(&[4])));
    assert_eq!(
        export.handle(Reply::Failure("killed".to_string())),
        Some(ExportError::ExecutionFailure("killed".to_string()))
    );
    assert_eq!(export.paginator().phase(), Phase::Aborted);
    assert_eq!(export.action(), write("data_json/n.json"));
    assert!(export.document().is_empty());
}

#[test]
fn page_without_rows_stops_with_no_progress() {
    let mut export = Exporter::new(names(&["m"]));
    export.handle(Reply::Response(count_text(&[4])));
    export.handle(Reply::Response(page_text(0, 3)));
    assert_eq!(
        export.handle(Reply::Response(page_text(3, 3))),
        Some(ExportError::NoProgress)
    );
    assert_eq!(export.paginator().phase(), Phase::Stalled);
    assert_eq!(export.action(), write("data_json/m.json"));
    assert_eq!(export.document(), &rows(0, 3));
}

#[test]
fn reply_that_is_not_awaited_changes_nothing() {
    let mut export = Exporter::new(names(&["m"]));
    assert_eq!(export.handle(Reply::Written), None);
    assert_eq!(export.stage(), Stage::Counting);
    assert_eq!(export.current(), Some("m"));
    export.handle(Reply::Response(count_text(&[0])));
    assert_eq!(export.stage(), Stage::Writing);
    assert_eq!(export.handle(Reply::Response(page_text(0, 1))), None);
    assert_eq!(export.handle(Reply::Failure("late".to_string())), None);
    assert_eq!(export.stage(), Stage::Writing);
    assert!(export.document().is_empty());
    export.handle(Reply::Written);
    assert!(export.is_finished());
    assert_eq!(export.handle(Reply::Response(count_text(&[1]))), None);
    assert_eq!(export.handle(Reply::Written), None);
    assert!(export.is_finished());
}

#[test]
fn steps_given_as_plain_values() {
    let mut export = Exporter::new(names(&["m", "n"]));
    export.on_page(Some(rows(0, 1)));
    assert_eq!(export.stage(), Stage::Counting);
    export.on_count(Some(3));
    assert_eq!(export.stage(), Stage::Paging);
    export.on_count(Some(9));
    assert_eq!(export.paginator().total(), 3);
    export.on_page(Some(rows(0, 2)));
    assert_eq!(export.action(), query("SELECT * FROM \"m\" OFFSET 2"));
    export.on_written();
    assert_eq!(export.stage(), Stage::Paging);
    export.on_page(None);
    assert_eq!(export.stage(), Stage::Writing);
    assert_eq!(export.paginator().phase(), Phase::Aborted);
    export.on_written();
    assert_eq!(export.current(), Some("n"));
    export.on_count(None);
    assert!(export.is_finished());
}

#[test]
fn cancel_ends_the_run_without_a_write() {
    let mut export = Exporter::new(names(&["m", "n"]));
    export.handle(Reply::Response(count_text(&[4])));
    export.handle(Reply::Response(page_text(0, 2)));
    export.cancel();
    assert!(export.is_finished());
    assert_eq!(export.action(), Action::Finish);
    assert!(export.document().is_empty());
    assert_eq!(export.paginator().phase(), Phase::Cancelled);
}

#[test]
fn export_starts_from_a_listing() {
    let mut export =
        Exporter::from_listing("name: measurements\nname\n----\nweird\"name\nLoad power\n");
    assert_eq!(export.action(), query("SELECT COUNT(*) FROM \"weird\\\"name\""));
    export.handle(Reply::Response(count_text(&[1])));
    assert_eq!(export.action(), query("SELECT * FROM \"weird\\\"name\" OFFSET 0"));
    export.handle(Reply::Response(page_text(0, 1)));
    assert_eq!(export.action(), write("data_json/weird\"name.json"));
    export.handle(Reply::Written);
    assert_eq!(export.current(), Some("Load power"));
}
