use crate::count::{count_outcome, read_count, resolved_count};
use crate::error::ExportError;
use crate::json::{parsed_json, JsonModel};
use crate::lister::{listed_names, measurement_names, texts};
use crate::paginator::{Paginator, PaginatorModel, Phase};
use crate::record::{Record, RecordModel};
use crate::reshape::{page_outcome, page_records, read_page, record_models};
use crate::text::{
    count_query, count_query_text, output_path, output_path_text, page_query, page_query_text,
};
use vstd::prelude::*;

verus! {

/// What the export of the current measurement waits for.
#[derive(Debug, Clone, Copy, PartialEq, Eq, Structural)]
pub enum Stage {
    /// The response to the count query.
    Counting,
    /// The response to a page query.
    Paging,
    /// The writing of the document.
    Writing,
}

/// What the caller is to do next.
#[derive(Debug, PartialEq, Eq)]
pub enum Action {
    /// Run this query and report its response.
    Query(String),
    /// Write the document of the current measurement to this path and report
    /// that it is written.
    Write(String),
    /// Nothing: every measurement is dealt with.
    Finish,
}

/// The mathematical value of an [`Action`].
pub enum ActionModel {
    Query(Seq<char>),
    Write(Seq<char>),
    Finish,
}

impl View for Action {
    type V = ActionModel;

    open spec fn view(&self) -> ActionModel {
        match *self {
            Action::Query(query) => ActionModel::Query(query@),
            Action::Write(path) => ActionModel::Write(path@),
            Action::Finish => ActionModel::Finish,
        }
    }
}

/// What the caller reports of the action it was given.
#[derive(Debug, PartialEq, Eq)]
pub enum Reply {
    /// The query succeeded; this is the text of its response.
    Response(String),
    /// The query did not succeed; this is the executor's error text.
    Failure(String),
    /// The document is written.
    Written,
}

/// What a reply amounts to, once the text of a response is read.
pub enum Outcome {
    /// A response with the value it holds; `None` where it is no JSON text.
    Response(Option<JsonModel>),
    /// The query did not succeed.
    Failure,
    /// The document is written.
    Written,
}

impl Reply {
    /// What the reply amounts to.
    pub open spec fn outcome(self) -> Outcome {
        match self {
            Reply::Response(text) => Outcome::Response(parsed_json(text@)),
            Reply::Failure(_) => Outcome::Failure,
            Reply::Written => Outcome::Written,
        }
    }
}

/// The mathematical value of an [`Exporter`].
pub struct ExporterModel {
    /// The measurements to export, in order.
    pub names: Seq<Seq<char>>,
    /// The position of the current measurement; the number of measurements
    /// once all are dealt with.
    pub index: nat,
    pub stage: Stage,
    /// The paginator of the current measurement, once its rows are counted.
    pub pager: PaginatorModel,
}

impl ExporterModel {
    /// Whether every measurement is dealt with.
    pub open spec fn finished(self) -> bool {
        self.index >= self.names.len()
    }

    /// Whether the stage fits the paginator: pages are awaited exactly while
    /// the paginator wants one.
    pub open spec fn wf(self) -> bool {
        &&& self.pager.wf()
        &&& self.index <= self.names.len()
        &&& !self.finished() && self.stage == Stage::Paging ==> !self.pager.finished()
        &&& !self.finished() && self.stage == Stage::Writing ==> self.pager.finished()
            && self.pager.phase != Phase::Cancelled
    }

    /// The export of `names` before its first action.
    pub open spec fn start(names: Seq<Seq<char>>) -> ExporterModel {
        ExporterModel { names, index: 0, stage: Stage::Counting, pager: PaginatorModel::start(0) }
    }

    /// The name of the current measurement.
    pub open spec fn current(self) -> Seq<char>
        recommends
            !self.finished(),
    {
        self.names[self.index as int]
    }

    /// What the caller is to do in this state.
    pub open spec fn action(self) -> ActionModel {
        if self.finished() {
            ActionModel::Finish
        } else {
            match self.stage {
                Stage::Counting => ActionModel::Query(count_query_text(self.current())),
                Stage::Paging => ActionModel::Query(
                    page_query_text(self.current(), self.pager.offset()),
                ),
                Stage::Writing => ActionModel::Write(output_path_text(self.current())),
            }
        }
    }

    /// The export with the current measurement left behind.
    pub open spec fn next_measurement(self) -> ExporterModel {
        ExporterModel {
            index: self.index + 1,
            stage: Stage::Counting,
            pager: PaginatorModel::start(0),
            ..self
        }
    }

    /// The export after the count query was answered: with a row count the
    /// measurement's paginator starts, and without one the measurement is
    /// left behind.
    pub open spec fn counted(self, count: Option<u64>) -> ExporterModel {
        if self.finished() || self.stage != Stage::Counting {
            self
        } else {
            match count {
                Some(total) => {
                    let pager = PaginatorModel::start(total as nat);
                    ExporterModel {
                        pager,
                        stage: if pager.finished() {
                            Stage::Writing
                        } else {
                            Stage::Paging
                        },
                        ..self
                    }
                },
                None => self.next_measurement(),
            }
        }
    }

    /// The export after a page query was answered: with the records of the
    /// page, or with `None` where the page could not be fetched or read.
    pub open spec fn paged(self, page: Option<Seq<RecordModel>>) -> ExporterModel {
        if self.finished() || self.stage != Stage::Paging {
            self
        } else {
            let pager = match page {
                Some(records) => self.pager.accept(records),
                None => self.pager.fail(),
            };
            ExporterModel {
                pager,
                stage: if pager.finished() {
                    Stage::Writing
                } else {
                    Stage::Paging
                },
                ..self
            }
        }
    }

    /// The export after the document was written.
    pub open spec fn written(self) -> ExporterModel {
        if self.finished() || self.stage != Stage::Writing {
            self
        } else {
            self.next_measurement()
        }
    }

    /// The export after the run was called off: nothing is left to do, and
    /// the records of a measurement whose pages were still awaited are
    /// dropped.
    pub open spec fn cancelled(self) -> ExporterModel {
        ExporterModel { index: self.names.len(), pager: self.pager.cancel(), ..self }
    }

    /// The export after a reply. A reply that the stage does not await
    /// changes nothing.
    pub open spec fn handle(self, outcome: Outcome) -> ExporterModel {
        match outcome {
            Outcome::Response(parsed) => match self.stage {
                Stage::Counting => self.counted(count_outcome(parsed)),
                Stage::Paging => self.paged(page_outcome(parsed)),
                Stage::Writing => self,
            },
            Outcome::Failure => match self.stage {
                Stage::Counting => self.counted(None),
                Stage::Paging => self.paged(None),
                Stage::Writing => self,
            },
            Outcome::Written => self.written(),
        }
    }
}

/// A reply keeps the stage fitting the paginator, and the measurements as
/// they are.
pub proof fn lemma_handle_wf(export: ExporterModel, outcome: Outcome)
    requires
        export.wf(),
    ensures
        export.handle(outcome).wf(),
        export.handle(outcome).names == export.names,
        export.handle(outcome).index == export.index || export.handle(outcome).index
            == export.index + 1,
{
}

/// A measurement whose rows cannot be counted is skipped: where the count
/// query fails, or its response is no JSON text or holds no row count, the
/// export goes on to count the next measurement, or finishes after the last
/// one, and so never asks for the measurement's document to be written.
pub proof fn lemma_uncounted_is_skipped(export: ExporterModel, outcome: Outcome)
    requires
        export.wf(),
        !export.finished(),
        export.stage == Stage::Counting,
        match outcome {
            Outcome::Response(parsed) => count_outcome(parsed) is None,
            Outcome::Failure => true,
            Outcome::Written => false,
        },
    ensures
        export.handle(outcome) == export.next_measurement(),
        export.handle(outcome).action() == if export.index + 1 < export.names.len() {
            ActionModel::Query(count_query_text(export.names[export.index as int + 1]))
        } else {
            ActionModel::Finish
        },
{
}

/// A document is asked to be written only once its paginator has finished,
/// and never after the run was called off.
pub proof fn lemma_write_is_final(export: ExporterModel)
    requires
        export.wf(),
        export.action() is Write,
    ensures
        export.pager.finished(),
        export.pager.phase != Phase::Cancelled,
        export.action() == ActionModel::Write(output_path_text(export.current())),
{
}

/// A measurement without rows: its document is empty and is written all the
/// same.
pub proof fn lemma_empty_measurement(export: ExporterModel)
    requires
        export.wf(),
        !export.finished(),
        export.stage == Stage::Counting,
    ensures
        export.counted(Some(0)).action() == ActionModel::Write(
            output_path_text(export.current()),
        ),
        export.counted(Some(0)).pager.phase == Phase::Done,
        export.counted(Some(0)).pager.records.len() == 0,
{
}

/// Whether `report` is what a reply leaves to tell the operator: the failure
/// that it brought to the measurement, if any.
pub open spec fn reports(before: ExporterModel, reply: Reply, report: Option<ExportError>) -> bool {
    if before.finished() {
        report is None
    } else {
        match (before.stage, reply) {
            (Stage::Counting, Reply::Response(text)) => match parsed_json(text@) {
                None => report matches Some(ExportError::ParseFailure(_)),
                Some(response) => if resolved_count(response) is None {
                    report == Some(ExportError::CountUnavailable)
                } else {
                    report is None
                },
            },
            (Stage::Paging, Reply::Response(text)) => match parsed_json(text@) {
                None => report matches Some(ExportError::ParseFailure(_)),
                Some(response) => if page_records(response).len() == 0 {
                    report == Some(ExportError::NoProgress)
                } else {
                    report is None
                },
            },
            (Stage::Counting, Reply::Failure(detail)) | (Stage::Paging, Reply::Failure(detail)) => {
                report matches Some(ExportError::ExecutionFailure(told)) && told@ == detail@
            },
            _ => report is None,
        }
    }
}

/// Runs the export of a list of measurements, one after the other. It says
/// what to do next, takes the caller's report of it, and keeps the document
/// of the current measurement.
#[derive(Debug)]
pub struct Exporter {
    names: Vec<String>,
    index: usize,
    stage: Stage,
    pager: Paginator,
}

impl View for Exporter {
    type V = ExporterModel;

    closed spec fn view(&self) -> ExporterModel {
        ExporterModel {
            names: texts(self.names@),
            index: self.index as nat,
            stage: self.stage,
            pager: self.pager@,
        }
    }
}

impl Exporter {
    #[verifier::type_invariant]
    spec fn stage_fits(self) -> bool {
        self@.wf()
    }

    /// The export of `names`, before its first action.
    pub fn new(names: Vec<String>) -> (export: Exporter)
        ensures
            export@ == ExporterModel::start(texts(names@)),
            export@.wf(),
    {
        Exporter { names, index: 0, stage: Stage::Counting, pager: Paginator::new(0) }
    }

    /// The export of the measurements that a listing names.
    pub fn from_listing(raw: &str) -> (export: Exporter)
        ensures
            export@ == ExporterModel::start(listed_names(raw@)),
            export@.wf(),
    {
        Exporter::new(measurement_names(raw))
    }

    /// Whether every measurement is dealt with.
    pub fn is_finished(&self) -> (finished: bool)
        ensures
            finished == self@.finished(),
            self@.wf(),
    {
        proof {
            use_type_invariant(self);
        }
        self.index >= self.names.len()
    }

    /// What the export of the current measurement waits for.
    pub fn stage(&self) -> (stage: Stage)
        ensures
            stage == self@.stage,
    {
        self.stage
    }

    /// The name of the current measurement, while there is one.
    pub fn current(&self) -> (name: Option<&str>)
        ensures
            match name {
                Some(name) => !self@.finished() && name@ == self@.current(),
                None => self@.finished(),
            },
    {
        if self.index < self.names.len() {
            Some(self.names[self.index].as_str())
        } else {
            None
        }
    }

    /// The paginator of the current measurement.
    pub fn paginator(&self) -> (pager: &Paginator)
        ensures
            pager@ == self@.pager,
    {
        &self.pager
    }

    /// The records held for the current measurement: what a write action
    /// asks to be written.
    pub fn document(&self) -> (records: &Vec<Record>)
        ensures
            record_models(records@) == self@.pager.records,
    {
        self.pager.document()
    }

    /// What the caller is to do next.
    pub fn action(&self) -> (action: Action)
        ensures
            action@ == self@.action(),
    {
        if self.index >= self.names.len() {
            Action::Finish
        } else {
            let name = self.names[self.index].as_str();
            match self.stage {
                Stage::Counting => Action::Query(count_query(name)),
                Stage::Paging => {
                    proof {
                        use_type_invariant(self);
                    }
                    match self.pager.next_offset() {
                        Some(offset) => Action::Query(page_query(name, offset)),
                        None => Action::Finish,
                    }
                },
                Stage::Writing => Action::Write(output_path(name)),
            }
        }
    }

    /// Takes the outcome of the count query: the row count, or `None` where
    /// there is none to be had.
    pub fn on_count(&mut self, count: Option<u64>)
        ensures
            final(self)@ == old(self)@.counted(count),
            final(self)@.wf(),
    {
        let mut taken = Exporter::new(Vec::new());
        core::mem::swap(self, &mut taken);
        proof {
            use_type_invariant(&taken);
        }
        let Exporter { names, index, stage, pager } = taken;
        if index < names.len() && stage == Stage::Counting {
            match count {
                Some(total) => {
                    let pager = Paginator::new(total);
                    let stage = if total == 0 {
                        Stage::Writing
                    } else {
                        Stage::Paging
                    };
                    *self = Exporter { names, index, stage, pager };
                },
                None => {
                    *self = Exporter {
                        names,
                        index: index + 1,
                        stage: Stage::Counting,
                        pager: Paginator::new(0),
                    };
                },
            }
        } else {
            *self = Exporter { names, index, stage, pager };
        }
    }

    /// Takes the outcome of a page query: the records of the page, or `None`
    /// where the page could not be fetched or read.
    pub fn on_page(&mut self, page: Option<Vec<Record>>)
        ensures
            final(self)@ == old(self)@.paged(
                match page {
                    Some(records) => Some(record_models(records@)),
                    None => None,
                },
            ),
            final(self)@.wf(),
    {
        let mut taken = Exporter::new(Vec::new());
        core::mem::swap(self, &mut taken);
        proof {
            use_type_invariant(&taken);
        }
        let Exporter { names, index, stage, pager } = taken;
        let mut pager = pager;
        if index < names.len() && stage == Stage::Paging {
            match page {
                Some(records) => pager.accept_page(records),
                None => pager.abort(),
            }
            let stage = match pager.next_offset() {
                Some(_) => Stage::Paging,
                None => Stage::Writing,
            };
            *self = Exporter { names, index, stage, pager };
        } else {
            *self = Exporter { names, index, stage, pager };
        }
    }

    /// Takes the report that the document is written.
    pub fn on_written(&mut self)
        ensures
            final(self)@ == old(self)@.written(),
            final(self)@.wf(),
    {
        let mut taken = Exporter::new(Vec::new());
        core::mem::swap(self, &mut taken);
        proof {
            use_type_invariant(&taken);
        }
        let Exporter { names, index, stage, pager } = taken;
        if index < names.len() && stage == Stage::Writing {
            *self = Exporter {
                names,
                index: index + 1,
                stage: Stage::Counting,
                pager: Paginator::new(0),
            };
        } else {
            *self = Exporter { names, index, stage, pager };
        }
    }

    /// Calls the run off: nothing is left to do, and the records of a
    /// measurement whose pages were still awaited are dropped.
    pub fn cancel(&mut self)
        ensures
            final(self)@ == old(self)@.cancelled(),
            final(self)@.wf(),
            final(self)@.finished(),
    {
        let mut taken = Exporter::new(Vec::new());
        core::mem::swap(self, &mut taken);
        proof {
            use_type_invariant(&taken);
        }
        let Exporter { names, index, stage, pager } = taken;
        let mut pager = pager;
        pager.cancel();
        let index = names.len();
        *self = Exporter { names, index, stage, pager };
    }

    /// Takes the caller's reply to the last action and moves on. The result
    /// is the failure that the reply brought to the measurement, if any, for
    /// the operator's log.
    pub fn handle(&mut self, reply: Reply) -> (report: Option<ExportError>)
        ensures
            final(self)@ == old(self)@.handle(reply.outcome()),
            final(self)@.wf(),
            reports(old(self)@, reply, report),
    {
        if self.is_finished() {
            return None;
        }
        match reply {
            Reply::Response(text) => match self.stage() {
                Stage::Counting => match read_count(text.as_str()) {
                    Ok(total) => {
                        self.on_count(Some(total));
                        None
                    },
                    Err(error) => {
                        self.on_count(None);
                        Some(error)
                    },
                },
                Stage::Paging => match read_page(text.as_str()) {
                    Ok(records) => {
                        let stalled = records.len() == 0;
                        self.on_page(Some(records));
                        if stalled {
                            Some(ExportError::NoProgress)
                        } else {
                            None
                        }
                    },
                    Err(error) => {
                        self.on_page(None);
                        Some(error)
                    },
                },
                Stage::Writing => None,
            },
            Reply::Failure(detail) => match self.stage() {
                Stage::Counting => {
                    self.on_count(None);
                    Some(ExportError::ExecutionFailure(detail))
                },
                Stage::Paging => {
                    self.on_page(None);
                    Some(ExportError::ExecutionFailure(detail))
                },
                Stage::Writing => None,
            },
            Reply::Written => {
                self.on_written();
                None
            },
        }
    }
}

} // verus!
