//! One run from start to end: clearing the store if asked to, loading the
//! files, then the query if there is one. The run says what to do next;
//! whoever drives it talks to the store and reports back.

use vstd::prelude::*;
use crate::query::{export_text, parsed_request, QueryRequest, QueryRequestView};
use crate::statement::{drop_table_statement, drop_text, TABLE_LISTING_QUERY};

verus! {

/// Where a run stands.
#[derive(Clone, Copy, Debug, PartialEq, Eq, Structural)]
pub enum RunPhase {
    /// The tables that the store holds are to be listed.
    Listing,
    /// The next of those tables is to be dropped.
    Dropping,
    /// The files are to be loaded.
    Loading,
    /// The query is to be run.
    Querying,
    /// Nothing is left to do.
    Finished,
}

/// How a run ended.
#[derive(Clone, Debug, PartialEq, Eq)]
pub enum RunOutcome {
    /// Everything asked for was done, and no query was asked for.
    Completed,
    /// The rows of the query were written to the file at `path`.
    Exported { path: String },
    /// The query gave `rows` rows.
    Counted { rows: usize },
    /// The store could not be cleared; nothing was loaded.
    RefreshFailed { message: String },
    /// The files were loaded, but the export was refused.
    ExportFailed { message: String },
    /// The files were loaded, but the query was refused.
    QueryFailed { message: String },
}

/// The mathematical value of a [`RunOutcome`].
pub ghost enum RunOutcomeView {
    Completed,
    Exported { path: Seq<char> },
    Counted { rows: nat },
    RefreshFailed { message: Seq<char> },
    ExportFailed { message: Seq<char> },
    QueryFailed { message: Seq<char> },
}

impl View for RunOutcome {
    type V = RunOutcomeView;

    open spec fn view(&self) -> RunOutcomeView {
        match self {
            RunOutcome::Completed => RunOutcomeView::Completed,
            RunOutcome::Exported { path } => RunOutcomeView::Exported { path: path@ },
            RunOutcome::Counted { rows } => RunOutcomeView::Counted { rows: *rows as nat },
            RunOutcome::RefreshFailed { message } => RunOutcomeView::RefreshFailed {
                message: message@,
            },
            RunOutcome::ExportFailed { message } => RunOutcomeView::ExportFailed {
                message: message@,
            },
            RunOutcome::QueryFailed { message } => RunOutcomeView::QueryFailed {
                message: message@,
            },
        }
    }
}

/// Whether the run as a whole counts as failed. A refused export does not:
/// it is reported and the run ends in order.
pub open spec fn is_fatal(outcome: RunOutcomeView) -> bool {
    outcome is RefreshFailed || outcome is QueryFailed
}

impl RunOutcome {
    /// Tells whether the run as a whole counts as failed.
    pub fn fatal(&self) -> (fatal: bool)
        ensures
            fatal == is_fatal(self@),
    {
        match self {
            RunOutcome::RefreshFailed { .. } => true,
            RunOutcome::QueryFailed { .. } => true,
            _ => false,
        }
    }
}

/// What the run asks for next.
#[derive(Clone, Debug, PartialEq, Eq)]
pub enum RunAction {
    /// Run `query` and report the table names that it gives.
    ListTables { query: String },
    /// Send `statement` to the store.
    Execute { statement: String },
    /// Load the files, all of them, and report when that is done.
    LoadFiles,
    /// Send `statement` to the store; it writes the query's rows to `path`.
    Export { statement: String, path: String },
    /// Run `query` and report how many rows it gives.
    Count { query: String },
    /// Nothing more: take the outcome.
    Finish,
}

/// The mathematical value of a [`RunAction`].
pub ghost enum RunActionView {
    ListTables { query: Seq<char> },
    Execute { statement: Seq<char> },
    LoadFiles,
    Export { statement: Seq<char>, path: Seq<char> },
    Count { query: Seq<char> },
    Finish,
}

impl View for RunAction {
    type V = RunActionView;

    open spec fn view(&self) -> RunActionView {
        match self {
            RunAction::ListTables { query } => RunActionView::ListTables { query: query@ },
            RunAction::Execute { statement } => RunActionView::Execute { statement: statement@ },
            RunAction::LoadFiles => RunActionView::LoadFiles,
            RunAction::Export { statement, path } => RunActionView::Export {
                statement: statement@,
                path: path@,
            },
            RunAction::Count { query } => RunActionView::Count { query: query@ },
            RunAction::Finish => RunActionView::Finish,
        }
    }
}

/// How what the run asked for went.
#[derive(Clone, Debug, PartialEq, Eq)]
pub enum RunEvent {
    /// The store holds these tables.
    Tables { names: Vec<String> },
    /// The store ran the statement.
    Accepted,
    /// The store refused the statement or the query.
    Rejected { message: String },
    /// Every file was taken through its load.
    FilesLoaded,
    /// The query gave this many rows.
    Counted { rows: usize },
}

/// The mathematical value of a [`RunEvent`].
pub ghost enum RunEventView {
    Tables { names: Seq<Seq<char>> },
    Accepted,
    Rejected { message: Seq<char> },
    FilesLoaded,
    Counted { rows: nat },
}

impl View for RunEvent {
    type V = RunEventView;

    open spec fn view(&self) -> RunEventView {
        match self {
            RunEvent::Tables { names } => RunEventView::Tables { names: names.deep_view() },
            RunEvent::Accepted => RunEventView::Accepted,
            RunEvent::Rejected { message } => RunEventView::Rejected { message: message@ },
            RunEvent::FilesLoaded => RunEventView::FilesLoaded,
            RunEvent::Counted { rows } => RunEventView::Counted { rows: *rows as nat },
        }
    }
}

/// The mathematical value of a [`Run`].
#[verifier::ext_equal]
pub ghost struct RunView {
    /// What to do with the query, if the run has one.
    pub request: Option<QueryRequestView>,
    pub phase: RunPhase,
    /// The tables that the store held when the run began.
    pub tables: Seq<Seq<char>>,
    /// How many of them are dropped.
    pub dropped: nat,
    pub outcome: RunOutcomeView,
}

impl RunView {
    /// The run once it has ended with `outcome`.
    pub open spec fn end(self, outcome: RunOutcomeView) -> RunView {
        RunView { phase: RunPhase::Finished, outcome, ..self }
    }

    /// What the run asks for.
    pub open spec fn pending(self) -> RunActionView {
        match self.phase {
            RunPhase::Listing => RunActionView::ListTables { query: TABLE_LISTING_QUERY@ },
            RunPhase::Dropping => RunActionView::Execute {
                statement: drop_text(self.tables[self.dropped as int]),
            },
            RunPhase::Loading => RunActionView::LoadFiles,
            RunPhase::Querying => match self.request {
                Some(QueryRequestView::Export { query, path }) => RunActionView::Export {
                    statement: export_text(query, path),
                    path,
                },
                Some(QueryRequestView::Count { query }) => RunActionView::Count { query },
                None => RunActionView::Finish,
            },
            RunPhase::Finished => RunActionView::Finish,
        }
    }

    /// Whether `event` answers what the run asks for.
    pub open spec fn expects(self, event: RunEventView) -> bool {
        match self.phase {
            RunPhase::Listing => event is Tables || event is Rejected,
            RunPhase::Dropping => event is Accepted || event is Rejected,
            RunPhase::Loading => event is FilesLoaded,
            RunPhase::Querying => match self.request {
                Some(QueryRequestView::Export { query, path }) => event is Accepted
                    || event is Rejected,
                Some(QueryRequestView::Count { query }) => event is Counted || event is Rejected,
                None => false,
            },
            RunPhase::Finished => false,
        }
    }

    /// The run after `event`. An event that does not answer what the run
    /// asks for changes nothing.
    pub open spec fn step(self, event: RunEventView) -> RunView {
        match (self.phase, event) {
            (RunPhase::Listing, RunEventView::Tables { names }) => RunView {
                tables: names,
                phase: if names.len() > 0 {
                    RunPhase::Dropping
                } else {
                    RunPhase::Loading
                },
                ..self
            },
            (RunPhase::Listing, RunEventView::Rejected { message }) => self.end(
                RunOutcomeView::RefreshFailed { message },
            ),
            (RunPhase::Dropping, RunEventView::Accepted) => RunView {
                dropped: self.dropped + 1,
                phase: if self.dropped + 1 < self.tables.len() {
                    RunPhase::Dropping
                } else {
                    RunPhase::Loading
                },
                ..self
            },
            (RunPhase::Dropping, RunEventView::Rejected { message }) => self.end(
                RunOutcomeView::RefreshFailed { message },
            ),
            (RunPhase::Loading, RunEventView::FilesLoaded) => match self.request {
                Some(_) => RunView { phase: RunPhase::Querying, ..self },
                None => self.end(RunOutcomeView::Completed),
            },
            (RunPhase::Querying, RunEventView::Accepted) => match self.request {
                Some(QueryRequestView::Export { query, path }) => self.end(
                    RunOutcomeView::Exported { path },
                ),
                _ => self,
            },
            (RunPhase::Querying, RunEventView::Counted { rows }) => match self.request {
                Some(QueryRequestView::Count { query }) => self.end(
                    RunOutcomeView::Counted { rows },
                ),
                _ => self,
            },
            (RunPhase::Querying, RunEventView::Rejected { message }) => match self.request {
                Some(QueryRequestView::Export { query, path }) => self.end(
                    RunOutcomeView::ExportFailed { message },
                ),
                Some(QueryRequestView::Count { query }) => self.end(
                    RunOutcomeView::QueryFailed { message },
                ),
                None => self,
            },
            _ => self,
        }
    }

    /// The run after the store accepted `n` statements in a row.
    pub open spec fn accepted(self, n: nat) -> RunView
        decreases n,
    {
        if n == 0 {
            self
        } else {
            self.step(RunEventView::Accepted).accepted((n - 1) as nat)
        }
    }

    /// What holds of every run that started with [`initial_run`] and went on
    /// by [`RunView::step`].
    pub open spec fn valid(self) -> bool {
        &&& self.dropped <= self.tables.len()
        &&& self.phase is Listing ==> self.tables.len() == 0
        &&& self.phase is Dropping ==> self.dropped < self.tables.len()
        &&& self.phase is Loading || self.phase is Querying ==> self.dropped == self.tables.len()
        &&& self.phase is Querying ==> self.request is Some
        &&& !(self.phase is Finished) ==> self.outcome is Completed
    }
}

/// The run before anything is done: with `refresh` it begins by clearing the
/// store, else by loading the files. The query, if there is one, is read as
/// a query request.
pub open spec fn initial_run(refresh: bool, query: Option<Seq<char>>) -> RunView {
    RunView {
        request: match query {
            Some(text) => Some(parsed_request(text)),
            None => None,
        },
        phase: if refresh {
            RunPhase::Listing
        } else {
            RunPhase::Loading
        },
        tables: Seq::empty(),
        dropped: 0,
        outcome: RunOutcomeView::Completed,
    }
}

/// A run starts valid.
pub proof fn lemma_initial_run_valid(refresh: bool, query: Option<Seq<char>>)
    ensures
        initial_run(refresh, query).valid(),
{
}

/// Whatever happens, a valid run stays valid.
pub proof fn lemma_run_step_valid(run: RunView, event: RunEventView)
    requires
        run.valid(),
    ensures
        run.step(event).valid(),
{
}

/// A run without refresh drops nothing: it begins with the files.
pub proof fn lemma_no_refresh_no_drop(query: Option<Seq<char>>)
    ensures
        initial_run(false, query).pending() == RunActionView::LoadFiles,
{
}

/// A run with refresh drops the tables that the store holds one by one, in
/// the order listed, and asks for nothing else while any is left.
pub proof fn lemma_refresh_drops_in_order(run: RunView, names: Seq<Seq<char>>, k: int)
    requires
        run.valid(),
        run.phase is Listing,
        0 <= k < names.len(),
    ensures
        run.step(RunEventView::Tables { names }).accepted(k as nat).pending() == (
        RunActionView::Execute { statement: drop_text(names[k]) }),
{
    lemma_drops_go_on(run.step(RunEventView::Tables { names }), k);
}

proof fn lemma_drops_go_on(run: RunView, k: int)
    requires
        run.valid(),
        run.phase is Dropping,
        0 <= k < run.tables.len() - run.dropped,
    ensures
        run.accepted(k as nat).pending() == (RunActionView::Execute {
            statement: drop_text(run.tables[run.dropped + k]),
        }),
    decreases k,
{
    if k > 0 {
        lemma_drops_go_on(run.step(RunEventView::Accepted), k - 1);
    }
}

proof fn lemma_drops_end(run: RunView)
    requires
        run.valid(),
        run.phase is Dropping,
    ensures
        run.accepted((run.tables.len() - run.dropped) as nat) == (RunView {
            dropped: run.tables.len(),
            phase: RunPhase::Loading,
            ..run
        }),
    decreases run.tables.len() - run.dropped,
{
    let next = run.step(RunEventView::Accepted);
    let left = (run.tables.len() - run.dropped) as nat;
    if run.dropped + 1 < run.tables.len() {
        lemma_drops_end(next);
    } else {
        assert(next.accepted(0) == next);
    }
    assert(run.accepted(left) == next.accepted((left - 1) as nat));
}

/// A run with refresh turns to the files only once the store accepted the
/// drop of every table that it held; by then it has dropped them all.
pub proof fn lemma_refresh_precedes_loading(run: RunView, names: Seq<Seq<char>>)
    requires
        run.valid(),
        run.phase is Listing,
    ensures
        ({
            let cleared = run.step(RunEventView::Tables { names }).accepted(names.len());
            &&& cleared.pending() == RunActionView::LoadFiles
            &&& cleared.tables == names
            &&& cleared.dropped == names.len()
        }),
{
    let listed = run.step(RunEventView::Tables { names });
    if names.len() > 0 {
        lemma_drops_end(listed);
    } else {
        assert(listed.accepted(0) == listed);
    }
}

/// A refusal while the store is cleared ends the run: no file is loaded.
pub proof fn lemma_refused_refresh_ends_run(run: RunView, message: Seq<char>)
    requires
        run.valid(),
        run.phase is Listing || run.phase is Dropping,
    ensures
        run.step(RunEventView::Rejected { message }).pending() == RunActionView::Finish,
        run.step(RunEventView::Rejected { message }).outcome == (RunOutcomeView::RefreshFailed {
            message,
        }),
{
}

/// A query without the export marker is counted: the run never asks for an
/// export, so no file is written for it.
pub proof fn lemma_count_writes_no_file(run: RunView)
    requires
        run.valid(),
        run.request is Some,
        run.request->Some_0 is Count,
    ensures
        !(run.pending() is Export),
        run.phase is Querying ==> run.pending() == (RunActionView::Count {
            query: run.request->Some_0->Count_query,
        }),
{
}

/// The course of one run.
pub struct Run {
    request: Option<QueryRequest>,
    phase: RunPhase,
    tables: Vec<String>,
    dropped: usize,
    outcome: RunOutcome,
}

impl View for Run {
    type V = RunView;

    closed spec fn view(&self) -> RunView {
        RunView {
            request: match self.request {
                Some(request) => Some(request@),
                None => None,
            },
            phase: self.phase,
            tables: self.tables.deep_view(),
            dropped: self.dropped as nat,
            outcome: self.outcome@,
        }
    }
}

impl Run {
    #[verifier::type_invariant]
    spec fn inv(self) -> bool {
        self@.valid()
    }

    /// Starts a run. With `refresh` the store is cleared before any file is
    /// loaded; `query`, if given, runs once the files are loaded.
    pub fn new(refresh: bool, query: Option<&str>) -> (run: Run)
        ensures
            run@ == initial_run(
                refresh,
                match query {
                    Some(text) => Some(text@),
                    None => None,
                },
            ),
            run@.valid(),
    {
        let request = match query {
            Some(text) => Some(QueryRequest::parse(text)),
            None => None,
        };
        let phase = if refresh {
            RunPhase::Listing
        } else {
            RunPhase::Loading
        };
        let run = Run {
            request,
            phase,
            tables: Vec::new(),
            dropped: 0,
            outcome: RunOutcome::Completed,
        };
        assert(run@ =~= initial_run(
            refresh,
            match query {
                Some(text) => Some(text@),
                None => None,
            },
        ));
        run
    }

    /// Where the run stands.
    pub fn phase(&self) -> (phase: RunPhase)
        ensures
            phase == self@.phase,
            self@.valid(),
    {
        proof {
            use_type_invariant(self);
        }
        self.phase
    }

    /// What is to be done next.
    pub fn next_action(&self) -> (action: RunAction)
        ensures
            action@ == self@.pending(),
            self@.valid(),
    {
        proof {
            use_type_invariant(self);
        }
        match self.phase {
            RunPhase::Listing => RunAction::ListTables { query: TABLE_LISTING_QUERY.to_owned() },
            RunPhase::Dropping => RunAction::Execute {
                statement: drop_table_statement(self.tables[self.dropped].as_str()),
            },
            RunPhase::Loading => RunAction::LoadFiles,
            RunPhase::Querying => match &self.request {
                Some(request) => match request {
                    QueryRequest::Export { query, path } => RunAction::Export {
                        statement: request.statement(),
                        path: path.clone(),
                    },
                    QueryRequest::Count { query } => RunAction::Count { query: query.clone() },
                },
                None => RunAction::Finish,
            },
            RunPhase::Finished => RunAction::Finish,
        }
    }

    /// Takes in how what the run asked for went, and gives the run as it
    /// stands then. An event that the run did not ask for changes nothing.
    pub fn handle(self, event: RunEvent) -> (next: Run)
        ensures
            next@ == self@.step(event@),
            !self@.expects(event@) ==> next@ == self@,
            next@.valid(),
    {
        proof {
            use_type_invariant(&self);
            lemma_run_step_valid(self@, event@);
        }
        let next = match (self.phase, event) {
            (RunPhase::Listing, RunEvent::Tables { names }) => {
                let phase = if names.len() > 0 {
                    RunPhase::Dropping
                } else {
                    RunPhase::Loading
                };
                Run { tables: names, phase, ..self }
            },
            (RunPhase::Listing, RunEvent::Rejected { message }) => Run {
                phase: RunPhase::Finished,
                outcome: RunOutcome::RefreshFailed { message },
                ..self
            },
            (RunPhase::Dropping, RunEvent::Accepted) => {
                let tables = self.tables.len();
                let dropped = self.dropped + 1;
                let phase = if dropped < tables {
                    RunPhase::Dropping
                } else {
                    RunPhase::Loading
                };
                Run { dropped, phase, ..self }
            },
            (RunPhase::Dropping, RunEvent::Rejected { message }) => Run {
                phase: RunPhase::Finished,
                outcome: RunOutcome::RefreshFailed { message },
                ..self
            },
            (RunPhase::Loading, RunEvent::FilesLoaded) => {
                if self.request.is_some() {
                    Run { phase: RunPhase::Querying, ..self }
                } else {
                    Run { phase: RunPhase::Finished, outcome: RunOutcome::Completed, ..self }
                }
            },
            (RunPhase::Querying, RunEvent::Accepted) => match &self.request {
                Some(QueryRequest::Export { query, path }) => {
                    let path = path.clone();
                    Run { phase: RunPhase::Finished, outcome: RunOutcome::Exported { path }, ..self }
                },
                _ => self,
            },
            (RunPhase::Querying, RunEvent::Counted { rows }) => match &self.request {
                Some(QueryRequest::Count { query }) => Run {
                    phase: RunPhase::Finished,
                    outcome: RunOutcome::Counted { rows },
                    ..self
                },
                _ => self,
            },
            (RunPhase::Querying, RunEvent::Rejected { message }) => match &self.request {
                Some(QueryRequest::Export { query, path }) => Run {
                    phase: RunPhase::Finished,
                    outcome: RunOutcome::ExportFailed { message },
                    ..self
                },
                Some(QueryRequest::Count { query }) => Run {
                    phase: RunPhase::Finished,
                    outcome: RunOutcome::QueryFailed { message },
                    ..self
                },
                None => self,
            },
            (_, _) => self,
        };
        assert(next@ =~= self@.step(event@));
        next
    }

    /// Takes the outcome: how the run ended. Before the end it reads as
    /// completed.
    pub fn into_outcome(self) -> (outcome: RunOutcome)
        ensures
            outcome@ == self@.outcome,
    {
        self.outcome
    }
}

} // verus!
