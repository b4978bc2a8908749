use crate::error::ExportError;
use crate::json::{parse_json, parsed_json, JsonModel};
use crate::record::{Record, RecordModel};
use crate::reshape::{page_records, record_models, reshape_page};
use vstd::prelude::*;

verus! {

/// Where the extraction of one measurement stands.
#[derive(Debug, Clone, Copy, PartialEq, Eq, Structural)]
pub enum Phase {
    /// Fewer records than the expected row count are held; a page is wanted.
    Accumulating,
    /// The expected row count is reached.
    Done,
    /// A page could not be fetched or read; what was held before is kept.
    Aborted,
    /// A page brought no record; what was held before is kept.
    Stalled,
    /// The run was called off; nothing is kept.
    Cancelled,
}

/// What can happen to a paginator that waits for a page.
pub enum PageEvent {
    /// The page was fetched and read; these are its records.
    Page(Seq<RecordModel>),
    /// The page could not be fetched or read.
    Failure,
    /// The run is called off.
    Cancel,
}

/// The mathematical value of a [`Paginator`].
pub struct PaginatorModel {
    /// The expected row count.
    pub total: nat,
    /// The records held, in the order in which they came.
    pub records: Seq<RecordModel>,
    pub phase: Phase,
}

impl PaginatorModel {
    /// The offset of the next page: the number of records held.
    pub open spec fn offset(self) -> nat {
        self.records.len()
    }

    /// Whether the phase fits the records: a paginator that accumulates holds
    /// fewer records than expected, and one that is done holds no fewer.
    pub open spec fn wf(self) -> bool {
        &&& self.phase == Phase::Accumulating ==> self.records.len() < self.total
        &&& self.phase == Phase::Done ==> self.records.len() >= self.total
        &&& self.phase == Phase::Cancelled ==> self.records.len() == 0
    }

    /// Whether no further page is wanted.
    pub open spec fn finished(self) -> bool {
        self.phase != Phase::Accumulating
    }

    /// The paginator of a measurement of `total` rows before its first page.
    pub open spec fn start(total: nat) -> PaginatorModel {
        PaginatorModel {
            total,
            records: Seq::empty(),
            phase: if total == 0 {
                Phase::Done
            } else {
                Phase::Accumulating
            },
        }
    }

    /// The paginator after a page was read. While it accumulates, an empty
    /// page stalls it, and any other page is appended to its records; it is
    /// done as soon as it holds the expected count. A finished paginator
    /// stays as it is.
    pub open spec fn accept(self, page: Seq<RecordModel>) -> PaginatorModel {
        if self.phase != Phase::Accumulating {
            self
        } else if page.len() == 0 {
            PaginatorModel { phase: Phase::Stalled, ..self }
        } else {
            PaginatorModel {
                records: self.records + page,
                phase: if self.records.len() + page.len() >= self.total {
                    Phase::Done
                } else {
                    Phase::Accumulating
                },
                ..self
            }
        }
    }

    /// The paginator after a page could not be fetched or read.
    pub open spec fn fail(self) -> PaginatorModel {
        if self.phase != Phase::Accumulating {
            self
        } else {
            PaginatorModel { phase: Phase::Aborted, ..self }
        }
    }

    /// The paginator after the run was called off.
    pub open spec fn cancel(self) -> PaginatorModel {
        if self.phase != Phase::Accumulating {
            self
        } else {
            PaginatorModel { records: Seq::empty(), phase: Phase::Cancelled, ..self }
        }
    }

    /// The paginator after one event.
    pub open spec fn step(self, event: PageEvent) -> PaginatorModel {
        match event {
            PageEvent::Page(page) => self.accept(page),
            PageEvent::Failure => self.fail(),
            PageEvent::Cancel => self.cancel(),
        }
    }

    /// The paginator after a sequence of events.
    pub open spec fn run(self, events: Seq<PageEvent>) -> PaginatorModel
        decreases events.len(),
    {
        if events.len() == 0 {
            self
        } else {
            self.run(events.drop_last()).step(events.last())
        }
    }

    /// The paginator after the response to a page query, whose text has the
    /// value `parsed` or is no JSON text where `parsed` is `None`.
    pub open spec fn respond(self, parsed: Option<JsonModel>) -> PaginatorModel {
        match parsed {
            Some(response) => self.accept(page_records(response)),
            None => self.fail(),
        }
    }
}

/// The records of a sequence of pages, page after page.
pub open spec fn concatenated(pages: Seq<Seq<RecordModel>>) -> Seq<RecordModel>
    decreases pages.len(),
{
    if pages.len() == 0 {
        Seq::empty()
    } else {
        concatenated(pages.drop_last()) + pages.last()
    }
}

/// The events of a sequence of pages that were all read.
pub open spec fn page_events(pages: Seq<Seq<RecordModel>>) -> Seq<PageEvent> {
    Seq::new(pages.len(), |i: int| PageEvent::Page(pages[i]))
}

/// Extracts one measurement page by page. The offset of the next page is the
/// number of records held so far.
#[derive(Debug)]
pub struct Paginator {
    total: u64,
    records: Vec<Record>,
    phase: Phase,
}

impl View for Paginator {
    type V = PaginatorModel;

    closed spec fn view(&self) -> PaginatorModel {
        PaginatorModel {
            total: self.total as nat,
            records: record_models(self.records@),
            phase: self.phase,
        }
    }
}

impl Paginator {
    #[verifier::type_invariant]
    spec fn phase_fits(self) -> bool {
        self@.wf()
    }

    /// The paginator of a measurement of `total` rows, before its first page.
    pub fn new(total: u64) -> (paginator: Paginator)
        ensures
            paginator@ == PaginatorModel::start(total as nat),
            paginator@.wf(),
    {
        let phase = if total == 0 {
            Phase::Done
        } else {
            Phase::Accumulating
        };
        let ghost target = PaginatorModel::start(total as nat);
        assert(record_models(Seq::<Record>::empty()) =~= target.records);
        let paginator = Paginator { total, records: Vec::new(), phase };
        assert(paginator@.records =~= target.records);
        paginator
    }

    /// The phase.
    pub fn phase(&self) -> (phase: Phase)
        ensures
            phase == self@.phase,
            self@.wf(),
    {
        proof {
            use_type_invariant(self);
        }
        self.phase
    }

    /// The expected row count.
    pub fn total(&self) -> (total: u64)
        ensures
            total == self@.total,
    {
        self.total
    }

    /// The number of records held.
    pub fn len(&self) -> (n: usize)
        ensures
            n == self@.records.len(),
    {
        self.records.len()
    }

    /// The offset of the page to fetch next, while one is wanted.
    pub fn next_offset(&self) -> (offset: Option<u64>)
        ensures
            offset == if self@.finished() {
                None
            } else {
                Some(self@.offset() as u64)
            },
            offset matches Some(at) ==> at == self@.offset() && at < self@.total,
    {
        proof {
            use_type_invariant(self);
        }
        match self.phase {
            Phase::Accumulating => Some(self.records.len() as u64),
            _ => None,
        }
    }

    /// The records held, in the order in which they came.
    pub fn document(&self) -> (records: &Vec<Record>)
        ensures
            record_models(records@) == self@.records,
    {
        &self.records
    }

    /// Hands the records out.
    pub fn into_document(self) -> (records: Vec<Record>)
        ensures
            record_models(records@) == self@.records,
    {
        self.records
    }

    /// Takes the records of a page that was fetched and read.
    pub fn accept_page(&mut self, page: Vec<Record>)
        ensures
            final(self)@ == old(self)@.accept(record_models(page@)),
            final(self)@.wf(),
    {
        let mut taken = Paginator::new(0);
        core::mem::swap(self, &mut taken);
        proof {
            use_type_invariant(&taken);
        }
        let ghost before = taken@;
        let ghost target = before.accept(record_models(page@));
        let Paginator { total, records, phase } = taken;
        let mut records = records;
        let mut phase = phase;
        let mut page = page;
        if phase == Phase::Accumulating {
            if page.len() == 0 {
                phase = Phase::Stalled;
            } else {
                let ghost held = record_models(records@);
                let ghost more = record_models(page@);
                records.append(&mut page);
                assert(record_models(records@) =~= held + more);
                if records.len() as u64 >= total {
                    phase = Phase::Done;
                }
            }
        }
        assert(record_models(records@) == target.records);
        assert(phase == target.phase);
        *self = Paginator { total, records, phase };
    }

    /// Records that a page could not be fetched or read.
    pub fn abort(&mut self)
        ensures
            final(self)@ == old(self)@.fail(),
            final(self)@.wf(),
    {
        let mut taken = Paginator::new(0);
        core::mem::swap(self, &mut taken);
        proof {
            use_type_invariant(&taken);
        }
        let Paginator { total, records, phase } = taken;
        let phase = if phase == Phase::Accumulating {
            Phase::Aborted
        } else {
            phase
        };
        *self = Paginator { total, records, phase };
    }

    /// Calls the extraction off. Records held by a paginator that still
    /// accumulates are dropped.
    pub fn cancel(&mut self)
        ensures
            final(self)@ == old(self)@.cancel(),
            final(self)@.wf(),
    {
        let mut taken = Paginator::new(0);
        core::mem::swap(self, &mut taken);
        proof {
            use_type_invariant(&taken);
        }
        let Paginator { total, records, phase } = taken;
        if phase == Phase::Accumulating {
            let fresh: Vec<Record> = Vec::new();
            assert(record_models(fresh@) =~= Seq::<RecordModel>::empty());
            *self = Paginator { total, records: fresh, phase: Phase::Cancelled };
        } else {
            *self = Paginator { total, records, phase };
        }
    }

    /// Whether the step from `before` to `after` stalled a paginator that
    /// waited for a page.
    pub open spec fn stalled_by(before: PaginatorModel, after: PaginatorModel) -> bool {
        before.phase == Phase::Accumulating && after.phase == Phase::Stalled
    }

    /// Takes the text of the response to the page query. A text that is no
    /// JSON aborts the extraction. The result is what the step leaves to
    /// report: the reader's failure, or that the page brought no record.
    pub fn accept_response(&mut self, text: &str) -> (report: Option<ExportError>)
        ensures
            final(self)@ == old(self)@.respond(parsed_json(text@)),
            final(self)@.wf(),
            match report {
                None => parsed_json(text@) is Some && !Paginator::stalled_by(
                    old(self)@,
                    final(self)@,
                ),
                Some(error) => if parsed_json(text@) is None {
                    error is ParseFailure
                } else {
                    error == ExportError::NoProgress && Paginator::stalled_by(
                        old(self)@,
                        final(self)@,
                    )
                },
            },
    {
        match parse_json(text) {
            Ok(response) => {
                let wanted = self.next_offset().is_some();
                let page = reshape_page(&response);
                self.accept_page(page);
                if wanted && self.phase() == Phase::Stalled {
                    Some(ExportError::NoProgress)
                } else {
                    None
                }
            },
            Err(error) => {
                self.abort();
                Some(error)
            },
        }
    }
}

/// Whether `page` is what a source of rows hands out at the offset of
/// `paginator`: a run of the source's rows that begins at that offset.
pub open spec fn follows_source(
    paginator: PaginatorModel,
    source: Seq<RecordModel>,
    page: Seq<RecordModel>,
) -> bool {
    let at = paginator.offset() as int;
    at + page.len() <= source.len() && page == source.subrange(at, at + page.len())
}

/// A step keeps the phase fitting the records.
pub proof fn lemma_step_wf(paginator: PaginatorModel, event: PageEvent)
    requires
        paginator.wf(),
    ensures
        paginator.step(event).wf(),
        paginator.step(event).total == paginator.total,
{
}

/// A run keeps the phase fitting the records.
pub proof fn lemma_run_wf(paginator: PaginatorModel, events: Seq<PageEvent>)
    requires
        paginator.wf(),
    ensures
        paginator.run(events).wf(),
        paginator.run(events).total == paginator.total,
    decreases events.len(),
{
    if events.len() > 0 {
        lemma_run_wf(paginator, events.drop_last());
        lemma_step_wf(paginator.run(events.drop_last()), events.last());
    }
}

/// Forward progress: a step of a paginator that accumulates either finishes
/// it or moves its offset forward. So no offset is fetched twice.
pub proof fn lemma_progress(paginator: PaginatorModel, event: PageEvent)
    requires
        paginator.wf(),
        !paginator.finished(),
    ensures
        paginator.step(event).finished() || paginator.step(event).offset() > paginator.offset(),
{
}

/// Termination: after as many events as the measurement has rows, whatever
/// they are, the paginator is finished. A measurement without rows is
/// finished from the start.
pub proof fn lemma_terminates(total: nat, events: Seq<PageEvent>)
    requires
        events.len() >= total,
    ensures
        PaginatorModel::start(total).run(events).finished(),
{
    lemma_offset_counts_events(total, events);
    lemma_run_wf(PaginatorModel::start(total), events);
}

/// While a paginator accumulates, it holds at least one record for each event
/// that it has seen.
pub proof fn lemma_offset_counts_events(total: nat, events: Seq<PageEvent>)
    ensures
        PaginatorModel::start(total).run(events).wf(),
        PaginatorModel::start(total).run(events).finished() || PaginatorModel::start(total).run(
            events,
        ).offset() >= events.len(),
    decreases events.len(),
{
    let first = PaginatorModel::start(total);
    if events.len() > 0 {
        lemma_offset_counts_events(total, events.drop_last());
        let before = first.run(events.drop_last());
        lemma_step_wf(before, events.last());
        if !before.finished() {
            lemma_progress(before, events.last());
        }
    }
}

/// Order and no duplication: where every page of `pages` met a paginator that
/// still accumulated, the records held afterwards are those held before
/// followed by the records of the pages, page after page.
pub proof fn lemma_concatenation(paginator: PaginatorModel, pages: Seq<Seq<RecordModel>>)
    requires
        pages.len() > 0 ==> !paginator.run(page_events(pages.drop_last())).finished(),
    ensures
        paginator.run(page_events(pages)).records == paginator.records + concatenated(pages),
    decreases pages.len(),
{
    if pages.len() == 0 {
        assert(paginator.records + concatenated(pages) =~= paginator.records);
    } else {
        let earlier = pages.drop_last();
        assert(page_events(pages).drop_last() =~= page_events(earlier));
        assert(page_events(pages).last() == PageEvent::Page(pages.last()));
        if earlier.len() > 0 {
            let before = paginator.run(page_events(earlier.drop_last()));
            assert(page_events(earlier).drop_last() =~= page_events(earlier.drop_last()));
            assert(page_events(earlier).last() == PageEvent::Page(earlier.last()));
            assert(before.step(PageEvent::Page(earlier.last())) == paginator.run(
                page_events(earlier),
            ));
        }
        lemma_concatenation(paginator, earlier);
        let held = paginator.run(page_events(earlier));
        assert(held.step(PageEvent::Page(pages.last())).records =~= held.records + pages.last());
        assert(paginator.records + concatenated(earlier) + pages.last() =~= paginator.records + (
        concatenated(earlier) + pages.last()));
    }
}

/// Completeness: let a measurement have the rows `source`, let its paginator
/// expect as many, and let every page be read and be a run of rows of the
/// source at the offset that the paginator then has. Then the paginator
/// always holds the first rows of the source, and once it is done it holds
/// them all, each once and in order.
pub proof fn lemma_complete(source: Seq<RecordModel>, pages: Seq<Seq<RecordModel>>)
    requires
        forall|i: int|
            0 <= i < pages.len() ==> follows_source(
                PaginatorModel::start(source.len()).run(page_events(#[trigger] pages.take(i))),
                source,
                pages[i],
            ),
    ensures
        ({
            let end = PaginatorModel::start(source.len()).run(page_events(pages));
            &&& end.offset() <= source.len()
            &&& end.records == source.take(end.offset() as int)
            &&& end.phase == Phase::Done ==> end.records == source
            &&& end.phase != Phase::Aborted && end.phase != Phase::Cancelled
        }),
    decreases pages.len(),
{
    let first = PaginatorModel::start(source.len());
    if pages.len() == 0 {
        assert(first.records =~= source.take(0));
    } else {
        let earlier = pages.drop_last();
        assert(page_events(pages).drop_last() =~= page_events(earlier));
        assert(page_events(pages).last() == PageEvent::Page(pages.last()));
        assert forall|i: int| 0 <= i < earlier.len() implies follows_source(
            first.run(page_events(#[trigger] earlier.take(i))),
            source,
            earlier[i],
        ) by {
            assert(earlier.take(i) =~= pages.take(i));
        }
        lemma_complete(source, earlier);
        let held = first.run(page_events(earlier));
        assert(pages.take(pages.len() - 1) =~= earlier);
        assert(follows_source(held, source, pages.last()));
        let end = held.accept(pages.last());
        lemma_run_wf(first, page_events(earlier));
        assert(end.records =~= source.take(end.offset() as int));
        if end.phase == Phase::Done {
            assert(source.take(source.len() as int) =~= source);
        }
    }
}

} // verus!
