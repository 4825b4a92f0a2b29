//! Loading one file, one decision at a time. The task says what to do next;
//! whoever runs it opens the file, reads the sheets and sends the statements,
//! and tells the task how each went.

use vstd::prelude::*;
use crate::batch::{chunk_end, chunks, next_chunk_end};
use crate::cell::{Cell, CellView};
use crate::sanitize::{prefixed_table_name, sanitize_identifier, sanitized, table_name_of};
use crate::schema::{resolve_columns, resolved_columns, ColumnView};
use crate::statement::{
    create_table_statement, create_text, insert_statement, insert_text, schema_fault, SchemaError,
};

verus! {

/// Where a task stands.
#[derive(Clone, Copy, Debug, PartialEq, Eq, Structural)]
pub enum Phase {
    /// The file is to be opened.
    Opening,
    /// The next sheet is to be read.
    Reading,
    /// The table of the sheet in progress is to be created.
    Creating,
    /// The next chunk of the sheet in progress is to be inserted.
    Inserting,
    /// Nothing is left to do.
    Finished,
}

/// What went wrong with one sheet.
#[derive(Clone, Debug, PartialEq, Eq)]
pub enum LoadError {
    /// The sheet could not be read.
    Sheet { sheet: String, message: String },
    /// The sheet's table cannot be defined.
    Schema { table: String, fault: SchemaError },
    /// The store refused to create the sheet's table.
    Create { table: String, message: String },
    /// The store refused a chunk of the sheet's rows.
    Insert { table: String, message: String },
}

/// The mathematical value of a [`LoadError`].
pub ghost enum LoadErrorView {
    Sheet { sheet: Seq<char>, message: Seq<char> },
    Schema { table: Seq<char>, fault: SchemaError },
    Create { table: Seq<char>, message: Seq<char> },
    Insert { table: Seq<char>, message: Seq<char> },
}

impl View for LoadError {
    type V = LoadErrorView;

    open spec fn view(&self) -> LoadErrorView {
        match self {
            LoadError::Sheet { sheet, message } => LoadErrorView::Sheet {
                sheet: sheet@,
                message: message@,
            },
            LoadError::Schema { table, fault } => LoadErrorView::Schema {
                table: table@,
                fault: *fault,
            },
            LoadError::Create { table, message } => LoadErrorView::Create {
                table: table@,
                message: message@,
            },
            LoadError::Insert { table, message } => LoadErrorView::Insert {
                table: table@,
                message: message@,
            },
        }
    }
}

impl DeepView for LoadError {
    type V = LoadErrorView;

    open spec fn deep_view(&self) -> LoadErrorView {
        self@
    }
}

/// How the load of one file ended.
#[derive(Clone, Debug, PartialEq, Eq)]
pub enum LoadResult {
    /// The file was opened: `sheets` of its sheets were loaded whole, and
    /// `failures` says what went wrong with others.
    Loaded { sheets: usize, failures: Vec<LoadError> },
    /// The file could not be opened.
    OpenFailed { file: String, message: String },
}

/// The mathematical value of a [`LoadResult`].
pub ghost enum LoadResultView {
    Loaded { sheets: nat, failures: Seq<LoadErrorView> },
    OpenFailed { file: Seq<char>, message: Seq<char> },
}

impl View for LoadResult {
    type V = LoadResultView;

    open spec fn view(&self) -> LoadResultView {
        match self {
            LoadResult::Loaded { sheets, failures } => LoadResultView::Loaded {
                sheets: *sheets as nat,
                failures: failures.deep_view(),
            },
            LoadResult::OpenFailed { file, message } => LoadResultView::OpenFailed {
                file: file@,
                message: message@,
            },
        }
    }
}

/// What the task asks for next.
#[derive(Clone, Debug, PartialEq, Eq)]
pub enum Action {
    /// Open the file and report its sheet names.
    OpenFile,
    /// Read the rows of the sheet `name`.
    ReadSheet { name: String },
    /// Send `statement` to the store.
    Execute { statement: String },
    /// Nothing more: take the result.
    Finish,
}

/// The mathematical value of an [`Action`].
pub ghost enum ActionView {
    OpenFile,
    ReadSheet { name: Seq<char> },
    Execute { statement: Seq<char> },
    Finish,
}

impl View for Action {
    type V = ActionView;

    open spec fn view(&self) -> ActionView {
        match self {
            Action::OpenFile => ActionView::OpenFile,
            Action::ReadSheet { name } => ActionView::ReadSheet { name: name@ },
            Action::Execute { statement } => ActionView::Execute { statement: statement@ },
            Action::Finish => ActionView::Finish,
        }
    }
}

/// How what the task asked for went.
#[derive(Clone, Debug, PartialEq, Eq)]
pub enum Event {
    /// The file is open and holds these sheets, in this order.
    Opened { sheet_names: Vec<String> },
    /// The file could not be opened.
    OpenFailed { message: String },
    /// The sheet was read: its rows, header first.
    SheetRead { rows: Vec<Vec<Cell>> },
    /// The sheet could not be read.
    SheetUnreadable { message: String },
    /// The store ran the statement.
    Accepted,
    /// The store refused the statement.
    Rejected { message: String },
}

/// The mathematical value of an [`Event`].
pub ghost enum EventView {
    Opened { sheet_names: Seq<Seq<char>> },
    OpenFailed { message: Seq<char> },
    SheetRead { rows: Seq<Seq<CellView>> },
    SheetUnreadable { message: Seq<char> },
    Accepted,
    Rejected { message: Seq<char> },
}

impl View for Event {
    type V = EventView;

    open spec fn view(&self) -> EventView {
        match self {
            Event::Opened { sheet_names } => EventView::Opened {
                sheet_names: sheet_names.deep_view(),
            },
            Event::OpenFailed { message } => EventView::OpenFailed { message: message@ },
            Event::SheetRead { rows } => EventView::SheetRead { rows: rows.deep_view() },
            Event::SheetUnreadable { message } => EventView::SheetUnreadable { message: message@ },
            Event::Accepted => EventView::Accepted,
            Event::Rejected { message } => EventView::Rejected { message: message@ },
        }
    }
}

/// The columns of a sheet: named by its header row, typed by its first data
/// row where it has one.
pub open spec fn sheet_columns(rows: Seq<Seq<CellView>>) -> Seq<ColumnView>
    recommends
        rows.len() > 0,
{
    resolved_columns(
        rows[0],
        if rows.len() > 1 {
            Some(rows[1])
        } else {
            None
        },
    )
}

/// The mathematical value of a [`FileTask`].
#[verifier::ext_equal]
pub ghost struct TaskView {
    /// The file's name, without directory and extension.
    pub file: Seq<char>,
    pub phase: Phase,
    /// The file's sheets, in the decoder's order.
    pub sheet_names: Seq<Seq<char>>,
    /// How many sheets are done with; the sheet in progress, if any.
    pub cursor: nat,
    /// The rows of the sheet in progress, header first.
    pub rows: Seq<Seq<CellView>>,
    /// The first row of the sheet in progress that is not inserted yet.
    pub next_row: nat,
    /// How many sheets were loaded whole.
    pub loaded: nat,
    pub failures: Seq<LoadErrorView>,
    pub open_failure: Option<Seq<char>>,
}

impl TaskView {
    /// The name of the sheet in progress.
    pub open spec fn sheet(self) -> Seq<char> {
        self.sheet_names[self.cursor as int]
    }

    /// The table of the sheet in progress.
    pub open spec fn table(self) -> Seq<char> {
        table_name_of(self.file, self.sheet())
    }

    /// The columns of the sheet in progress.
    pub open spec fn columns(self) -> Seq<ColumnView> {
        sheet_columns(self.rows)
    }

    /// The rows that the next insertion carries.
    pub open spec fn chunk(self) -> Seq<Seq<CellView>> {
        self.rows.subrange(
            self.next_row as int,
            chunk_end(self.next_row as int, self.rows.len() as int),
        )
    }

    /// The task once the sheet in progress is done with.
    pub open spec fn advance(self) -> TaskView {
        TaskView {
            cursor: self.cursor + 1,
            phase: if self.cursor + 1 < self.sheet_names.len() {
                Phase::Reading
            } else {
                Phase::Finished
            },
            rows: Seq::empty(),
            next_row: 0,
            ..self
        }
    }

    /// The task once the sheet in progress has failed with `error`.
    pub open spec fn fail(self, error: LoadErrorView) -> TaskView {
        (TaskView { failures: self.failures.push(error), ..self }).advance()
    }

    /// The task once the sheet in progress is loaded whole.
    pub open spec fn complete(self) -> TaskView {
        (TaskView { loaded: self.loaded + 1, ..self }).advance()
    }

    /// What the task asks for.
    pub open spec fn pending(self) -> ActionView {
        match self.phase {
            Phase::Opening => ActionView::OpenFile,
            Phase::Reading => ActionView::ReadSheet { name: self.sheet() },
            Phase::Creating => ActionView::Execute {
                statement: create_text(self.table(), self.columns()),
            },
            Phase::Inserting => ActionView::Execute {
                statement: insert_text(self.table(), self.chunk(), self.columns().len()),
            },
            Phase::Finished => ActionView::Finish,
        }
    }

    /// Whether `event` answers what the task asks for.
    pub open spec fn expects(self, event: EventView) -> bool {
        match self.phase {
            Phase::Opening => event is Opened || event is OpenFailed,
            Phase::Reading => event is SheetRead || event is SheetUnreadable,
            Phase::Creating => event is Accepted || event is Rejected,
            Phase::Inserting => event is Accepted || event is Rejected,
            Phase::Finished => false,
        }
    }

    /// The task after `event`. An event that does not answer what the task
    /// asks for changes nothing.
    pub open spec fn step(self, event: EventView) -> TaskView {
        match (self.phase, event) {
            (Phase::Opening, EventView::Opened { sheet_names }) => TaskView {
                sheet_names,
                phase: if sheet_names.len() > 0 {
                    Phase::Reading
                } else {
                    Phase::Finished
                },
                ..self
            },
            (Phase::Opening, EventView::OpenFailed { message }) => TaskView {
                open_failure: Some(message),
                phase: Phase::Finished,
                ..self
            },
            (Phase::Reading, EventView::SheetRead { rows }) => {
                let started = TaskView { rows, next_row: 1, phase: Phase::Creating, ..self };
                if rows.len() == 0 {
                    self.advance()
                } else {
                    match schema_fault(started.table(), started.columns()) {
                        Some(fault) => self.fail(
                            LoadErrorView::Schema { table: started.table(), fault },
                        ),
                        None => started,
                    }
                }
            },
            (Phase::Reading, EventView::SheetUnreadable { message }) => self.fail(
                LoadErrorView::Sheet { sheet: self.sheet(), message },
            ),
            (Phase::Creating, EventView::Accepted) => if self.rows.len() > 1 {
                TaskView { phase: Phase::Inserting, ..self }
            } else {
                self.complete()
            },
            (Phase::Creating, EventView::Rejected { message }) => self.fail(
                LoadErrorView::Create { table: self.table(), message },
            ),
            (Phase::Inserting, EventView::Accepted) => {
                let end = chunk_end(self.next_row as int, self.rows.len() as int);
                if end < self.rows.len() {
                    TaskView { next_row: end as nat, ..self }
                } else {
                    self.complete()
                }
            },
            (Phase::Inserting, EventView::Rejected { message }) => self.fail(
                LoadErrorView::Insert { table: self.table(), message },
            ),
            _ => self,
        }
    }

    /// How the load ended, or stands so far.
    pub open spec fn result(self) -> LoadResultView {
        match self.open_failure {
            Some(message) => LoadResultView::OpenFailed { file: self.file, message },
            None => LoadResultView::Loaded { sheets: self.loaded, failures: self.failures },
        }
    }

    /// What holds of every task that started with [`initial_task`] and went on
    /// by [`TaskView::step`].
    pub open spec fn valid(self) -> bool {
        &&& self.cursor <= self.sheet_names.len()
        &&& self.loaded + self.failures.len() <= self.cursor
        &&& self.phase is Opening ==> self.sheet_names.len() == 0
        &&& self.phase is Reading || self.phase is Creating || self.phase is Inserting
            ==> self.cursor < self.sheet_names.len()
        &&& self.phase is Finished && self.open_failure is None ==> self.cursor
            == self.sheet_names.len()
        &&& self.open_failure is Some ==> self.phase is Finished && self.sheet_names.len() == 0
        &&& self.phase is Creating || self.phase is Inserting ==> {
            &&& self.rows.len() >= 1
            &&& schema_fault(self.table(), self.columns()) is None
            &&& 1 <= self.next_row <= self.rows.len()
        }
        &&& self.phase is Creating ==> self.next_row == 1
        &&& self.phase is Inserting ==> self.next_row < self.rows.len()
        &&& !(self.phase is Creating || self.phase is Inserting) ==> self.rows.len() == 0
            && self.next_row == 0
    }
}

/// The statements that load a sheet whole, in the order they are sent: the
/// creation of its table, then one insertion for each chunk of its data rows.
pub open spec fn sheet_plan(table: Seq<char>, rows: Seq<Seq<CellView>>) -> Seq<Seq<char>>
    recommends
        rows.len() > 0,
{
    seq![create_text(table, sheet_columns(rows))] + chunks(rows, 1).map_values(
        |chunk: Seq<Seq<CellView>>| insert_text(table, chunk, sheet_columns(rows).len()),
    )
}

impl TaskView {
    /// The task after the store accepted `n` statements in a row.
    pub open spec fn accepted(self, n: nat) -> TaskView
        decreases n,
    {
        if n == 0 {
            self
        } else {
            self.step(EventView::Accepted).accepted((n - 1) as nat)
        }
    }
}

/// The task for a file before anything is done.
pub open spec fn initial_task(file: Seq<char>) -> TaskView {
    TaskView {
        file,
        phase: Phase::Opening,
        sheet_names: Seq::empty(),
        cursor: 0,
        rows: Seq::empty(),
        next_row: 0,
        loaded: 0,
        failures: Seq::empty(),
        open_failure: None,
    }
}

/// A task starts valid.
pub proof fn lemma_initial_valid(file: Seq<char>)
    ensures
        initial_task(file).valid(),
{
}

/// Whatever happens, a valid task stays valid.
pub proof fn lemma_step_valid(task: TaskView, event: EventView)
    requires
        task.valid(),
    ensures
        task.step(event).valid(),
{
}

/// A sheet without a header row is passed over: nothing is sent to the
/// store for it, and it counts neither as loaded nor as failed.
pub proof fn lemma_headerless_sheet_is_skipped(task: TaskView, rows: Seq<Seq<CellView>>)
    requires
        task.valid(),
        task.phase is Reading,
        rows.len() == 0,
    ensures
        task.step(EventView::SheetRead { rows }) == task.advance(),
        !(task.step(EventView::SheetRead { rows }).pending() is Execute),
        task.step(EventView::SheetRead { rows }).loaded == task.loaded,
        task.step(EventView::SheetRead { rows }).failures == task.failures,
{
}

/// A sheet with a header row and no data rows gets its table, with one text
/// column for each header cell, and no insertion: once the store accepted
/// the creation the sheet counts as loaded. The header's names must all be
/// usable for that.
pub proof fn lemma_header_only_sheet_is_created(task: TaskView, rows: Seq<Seq<CellView>>)
    requires
        task.valid(),
        task.phase is Reading,
        rows.len() == 1,
        schema_fault(task.table(), resolved_columns(rows[0], None)) is None,
    ensures
        task.step(EventView::SheetRead { rows }).pending() == (ActionView::Execute {
            statement: create_text(task.table(), resolved_columns(rows[0], None)),
        }),
        task.step(EventView::SheetRead { rows }).step(EventView::Accepted) == task.complete(),
        !(task.complete().pending() is Execute),
{
    let created = task.step(EventView::SheetRead { rows });
    assert(created.table() == task.table());
    assert(created.complete() =~= task.complete());
}

/// A statement that the store refuses ends the sheet in progress and nothing
/// else: the sheet is counted as failed, none of its later chunks is sent,
/// and the task goes on with the next sheet.
pub proof fn lemma_rejection_ends_sheet_only(task: TaskView, message: Seq<char>)
    requires
        task.valid(),
        task.phase is Creating || task.phase is Inserting,
    ensures
        ({
            let next = task.step(EventView::Rejected { message });
            &&& next.cursor == task.cursor + 1
            &&& next.loaded == task.loaded
            &&& next.failures.drop_last() == task.failures
            &&& next.failures.last() == if task.phase is Creating {
                LoadErrorView::Create { table: task.table(), message }
            } else {
                LoadErrorView::Insert { table: task.table(), message }
            }
            &&& next.sheet_names == task.sheet_names
            &&& next.phase is Reading || next.phase is Finished
        }),
{
    let next = task.step(EventView::Rejected { message });
    assert(next.failures.drop_last() =~= task.failures);
}

/// While the store accepts, the insertions of a sheet go out chunk by chunk
/// in row order.
pub proof fn lemma_insertions_follow_chunks(task: TaskView, k: int)
    requires
        task.valid(),
        task.phase is Inserting,
        0 <= k < chunks(task.rows, task.next_row as int).len(),
    ensures
        task.accepted(k as nat).pending() == (ActionView::Execute {
            statement: insert_text(
                task.table(),
                chunks(task.rows, task.next_row as int)[k],
                task.columns().len(),
            ),
        }),
    decreases k,
{
    if k > 0 {
        let next = task.step(EventView::Accepted);
        let end = chunk_end(task.next_row as int, task.rows.len() as int);
        assert(chunks(task.rows, end).len() > 0);
        assert(next.table() == task.table());
        lemma_insertions_follow_chunks(next, k - 1);
    }
}

/// Once the store accepted the insertion of every chunk, the sheet counts as
/// loaded.
pub proof fn lemma_insertions_complete(task: TaskView)
    requires
        task.valid(),
        task.phase is Inserting,
    ensures
        task.accepted(chunks(task.rows, task.next_row as int).len()) == task.complete(),
    decreases task.rows.len() - task.next_row,
{
    let next = task.step(EventView::Accepted);
    let end = chunk_end(task.next_row as int, task.rows.len() as int);
    let left = chunks(task.rows, task.next_row as int).len();
    assert(left == 1 + chunks(task.rows, end).len());
    if end < task.rows.len() {
        lemma_insertions_complete(next);
        assert(next.complete() =~= task.complete());
    } else {
        assert(next.accepted(0) == next);
    }
    assert(task.accepted(left) == next.accepted((left - 1) as nat));
}

/// While the store accepts, the statements of a sheet go out as its plan
/// says, one after the other.
pub proof fn lemma_sheet_follows_plan(task: TaskView, k: int)
    requires
        task.valid(),
        task.phase is Creating,
        0 <= k < sheet_plan(task.table(), task.rows).len(),
    ensures
        task.accepted(k as nat).pending() == (ActionView::Execute {
            statement: sheet_plan(task.table(), task.rows)[k],
        }),
{
    if k > 0 {
        let next = task.step(EventView::Accepted);
        assert(chunks(task.rows, 1).len() > 0);
        assert(next.table() == task.table());
        lemma_insertions_follow_chunks(next, k - 1);
        assert(task.accepted(k as nat) == next.accepted((k - 1) as nat));
    } else {
        assert(task.accepted(0) == task);
    }
}

/// Once the store accepted every statement of a sheet's plan, the sheet
/// counts as loaded and the task goes on with the next sheet.
pub proof fn lemma_sheet_completes(task: TaskView)
    requires
        task.valid(),
        task.phase is Creating,
    ensures
        task.accepted(sheet_plan(task.table(), task.rows).len()) == task.complete(),
{
    let next = task.step(EventView::Accepted);
    let n = sheet_plan(task.table(), task.rows).len();
    assert(task.accepted(n) == next.accepted((n - 1) as nat));
    if task.rows.len() > 1 {
        lemma_insertions_complete(next);
        assert(next.complete() =~= task.complete());
    } else {
        assert(next.accepted(0) == next);
    }
}

impl TaskView {
    /// The task after the sheet in progress was read as `rows` and the store
    /// accepted every statement sent for it.
    pub open spec fn loaded_sheet(self, rows: Seq<Seq<CellView>>) -> TaskView {
        let read = self.step(EventView::SheetRead { rows });
        if self.phase is Reading && read.phase is Creating {
            read.accepted(sheet_plan(read.table(), rows).len())
        } else {
            read
        }
    }

    /// The task after each of `sheets` was read in turn and the store
    /// accepted every statement sent for them.
    pub open spec fn loaded_sheets(self, sheets: Seq<Seq<Seq<CellView>>>) -> TaskView
        decreases sheets.len(),
    {
        if sheets.len() == 0 {
            self
        } else {
            self.loaded_sheet(sheets[0]).loaded_sheets(sheets.drop_first())
        }
    }
}

/// With a store that accepts every statement, a file whose sheets all have a
/// header row with usable names ends with each sheet loaded and none failed,
/// whatever else the store is asked meanwhile: the task looks at nothing but
/// its own file.
pub proof fn lemma_accepting_store_loads_every_sheet(
    task: TaskView,
    sheets: Seq<Seq<Seq<CellView>>>,
)
    requires
        task.valid(),
        task.phase is Reading || (task.phase is Finished && task.open_failure is None),
        task.cursor + sheets.len() == task.sheet_names.len(),
        forall|i: int|
            0 <= i < sheets.len() ==> (#[trigger] sheets[i]).len() > 0 && schema_fault(
                table_name_of(task.file, task.sheet_names[task.cursor + i]),
                sheet_columns(sheets[i]),
            ) is None,
    ensures
        task.loaded_sheets(sheets).phase is Finished,
        task.loaded_sheets(sheets).loaded == task.loaded + sheets.len(),
        task.loaded_sheets(sheets).failures == task.failures,
    decreases sheets.len(),
{
    if sheets.len() > 0 {
        let rows = sheets[0];
        let read = task.step(EventView::SheetRead { rows });
        assert(read.table() == table_name_of(task.file, task.sheet_names[task.cursor as int]));
        assert(read.phase is Creating);
        lemma_step_valid(task, EventView::SheetRead { rows });
        lemma_sheet_completes(read);
        let next = task.loaded_sheet(rows);
        assert(next == read.complete());
        let rest = sheets.drop_first();
        assert forall|i: int| 0 <= i < rest.len() implies (#[trigger] rest[i]).len() > 0
            && schema_fault(
            table_name_of(next.file, next.sheet_names[next.cursor + i]),
            sheet_columns(rest[i]),
        ) is None by {
            assert(rest[i] == sheets[i + 1]);
        }
        lemma_accepting_store_loads_every_sheet(next, rest);
    }
}

/// The load of one file. It holds what was decided so far and the rows of
/// the sheet in progress.
pub struct FileTask {
    file: String,
    prefix: String,
    phase: Phase,
    sheet_names: Vec<String>,
    cursor: usize,
    rows: Vec<Vec<Cell>>,
    table: String,
    create: String,
    width: usize,
    next_row: usize,
    loaded: usize,
    failures: Vec<LoadError>,
    open_failure: Option<String>,
}

impl View for FileTask {
    type V = TaskView;

    closed spec fn view(&self) -> TaskView {
        TaskView {
            file: self.file@,
            phase: self.phase,
            sheet_names: self.sheet_names.deep_view(),
            cursor: self.cursor as nat,
            rows: self.rows.deep_view(),
            next_row: self.next_row as nat,
            loaded: self.loaded as nat,
            failures: self.failures.deep_view(),
            open_failure: self.open_failure.deep_view(),
        }
    }
}

impl FileTask {
    #[verifier::type_invariant]
    spec fn inv(self) -> bool {
        &&& self@.valid()
        &&& self.prefix@ == sanitized(self.file@)
        &&& self.phase is Creating || self.phase is Inserting ==> {
            &&& self.table@ == self@.table()
            &&& self.create@ == create_text(self@.table(), self@.columns())
            &&& self.width == self@.columns().len()
        }
    }

    /// Starts the load of the file named `file_stem`: its name without
    /// directory and extension.
    pub fn new(file_stem: &str) -> (task: FileTask)
        ensures
            task@ == initial_task(file_stem@),
            task@.valid(),
    {
        let task = FileTask {
            file: file_stem.to_owned(),
            prefix: sanitize_identifier(file_stem),
            phase: Phase::Opening,
            sheet_names: Vec::new(),
            cursor: 0,
            rows: Vec::new(),
            table: String::new(),
            create: String::new(),
            width: 0,
            next_row: 0,
            loaded: 0,
            failures: Vec::new(),
            open_failure: None,
        };
        assert(task@ =~= initial_task(file_stem@));
        task
    }

    /// Where the task stands.
    pub fn phase(&self) -> (phase: Phase)
        ensures
            phase == self@.phase,
            self@.valid(),
    {
        proof {
            use_type_invariant(self);
        }
        self.phase
    }

    /// What is to be done next.
    pub fn next_action(&self) -> (action: Action)
        ensures
            action@ == self@.pending(),
            self@.valid(),
    {
        proof {
            use_type_invariant(self);
        }
        match self.phase {
            Phase::Opening => Action::OpenFile,
            Phase::Reading => Action::ReadSheet { name: self.sheet_names[self.cursor].clone() },
            Phase::Creating => Action::Execute { statement: self.create.clone() },
            Phase::Inserting => {
                let end = next_chunk_end(self.next_row, self.rows.len());
                let rows = self.rows.as_slice();
                let chunk = &rows[self.next_row..end];
                assert(chunk.deep_view() =~= self@.chunk());
                Action::Execute {
                    statement: insert_statement(self.table.as_str(), chunk, self.width),
                }
            },
            Phase::Finished => Action::Finish,
        }
    }

    fn advance(self) -> (next: FileTask)
        requires
            self.phase is Reading || self.phase is Creating || self.phase is Inserting,
        ensures
            next@ == self@.advance(),
    {
        proof {
            use_type_invariant(&self);
        }
        let sheets = self.sheet_names.len();
        let cursor = self.cursor + 1;
        let phase = if cursor < sheets {
            Phase::Reading
        } else {
            Phase::Finished
        };
        let next = FileTask {
            cursor,
            phase,
            rows: Vec::new(),
            table: String::new(),
            create: String::new(),
            width: 0,
            next_row: 0,
            ..self
        };
        assert(next@ =~= self@.advance());
        next
    }

    fn fail(self, error: LoadError) -> (next: FileTask)
        requires
            self.phase is Reading || self.phase is Creating || self.phase is Inserting,
        ensures
            next@ == self@.fail(error@),
    {
        proof {
            use_type_invariant(&self);
        }
        let sheets = self.sheet_names.len();
        let cursor = self.cursor + 1;
        let phase = if cursor < sheets {
            Phase::Reading
        } else {
            Phase::Finished
        };
        let mut failures = self.failures;
        failures.push(error);
        let next = FileTask {
            cursor,
            phase,
            failures,
            rows: Vec::new(),
            table: String::new(),
            create: String::new(),
            width: 0,
            next_row: 0,
            ..self
        };
        assert(next@ =~= self@.fail(error@));
        next
    }

    fn complete(self) -> (next: FileTask)
        requires
            self.phase is Creating || self.phase is Inserting,
        ensures
            next@ == self@.complete(),
    {
        proof {
            use_type_invariant(&self);
        }
        let sheets = self.sheet_names.len();
        let cursor = self.cursor + 1;
        let phase = if cursor < sheets {
            Phase::Reading
        } else {
            Phase::Finished
        };
        let next = FileTask {
            cursor,
            phase,
            loaded: self.loaded + 1,
            rows: Vec::new(),
            table: String::new(),
            create: String::new(),
            width: 0,
            next_row: 0,
            ..self
        };
        assert(next@ =~= self@.complete());
        next
    }

    /// Takes in how what the task asked for went, and gives the task as it
    /// stands then. An event that the task did not ask for changes nothing.
    pub fn handle(self, event: Event) -> (next: FileTask)
        ensures
            next@ == self@.step(event@),
            !self@.expects(event@) ==> next@ == self@,
            next@.valid(),
    {
        proof {
            use_type_invariant(&self);
            lemma_step_valid(self@, event@);
        }
        match (self.phase, event) {
            (Phase::Opening, Event::Opened { sheet_names }) => {
                let phase = if sheet_names.len() > 0 {
                    Phase::Reading
                } else {
                    Phase::Finished
                };
                let next = FileTask { sheet_names, phase, ..self };
                assert(next@ =~= self@.step(event@));
                next
            },
            (Phase::Opening, Event::OpenFailed { message }) => {
                let next = FileTask { open_failure: Some(message), phase: Phase::Finished, ..self };
                assert(next@ =~= self@.step(event@));
                next
            },
            (Phase::Reading, Event::SheetRead { rows }) => {
                if rows.len() == 0 {
                    self.advance()
                } else {
                    let table = prefixed_table_name(
                        self.prefix.as_str(),
                        self.sheet_names[self.cursor].as_str(),
                    );
                    let sample = if rows.len() > 1 {
                        Some(rows[1].as_slice())
                    } else {
                        None
                    };
                    let columns = resolve_columns(rows[0].as_slice(), sample);
                    match create_table_statement(table.as_str(), columns.as_slice()) {
                        Ok(create) => {
                            let width = columns.len();
                            let next = FileTask {
                                rows,
                                table,
                                create,
                                width,
                                next_row: 1,
                                phase: Phase::Creating,
                                ..self
                            };
                            assert(next@ =~= self@.step(event@));
                            next
                        },
                        Err(fault) => self.fail(LoadError::Schema { table, fault }),
                    }
                }
            },
            (Phase::Reading, Event::SheetUnreadable { message }) => {
                let sheet = self.sheet_names[self.cursor].clone();
                self.fail(LoadError::Sheet { sheet, message })
            },
            (Phase::Creating, Event::Accepted) => {
                if self.rows.len() > 1 {
                    let next = FileTask { phase: Phase::Inserting, ..self };
                    assert(next@ =~= self@.step(event@));
                    next
                } else {
                    self.complete()
                }
            },
            (Phase::Creating, Event::Rejected { message }) => {
                let table = self.table.clone();
                self.fail(LoadError::Create { table, message })
            },
            (Phase::Inserting, Event::Accepted) => {
                let end = next_chunk_end(self.next_row, self.rows.len());
                if end < self.rows.len() {
                    let next = FileTask { next_row: end, ..self };
                    assert(next@ =~= self@.step(event@));
                    next
                } else {
                    self.complete()
                }
            },
            (Phase::Inserting, Event::Rejected { message }) => {
                let table = self.table.clone();
                self.fail(LoadError::Insert { table, message })
            },
            (_, _) => self,
        }
    }

    /// Takes the result: how the load ended, or stands so far.
    pub fn into_result(self) -> (result: LoadResult)
        ensures
            result@ == self@.result(),
    {
        match self.open_failure {
            Some(message) => LoadResult::OpenFailed { file: self.file, message },
            None => LoadResult::Loaded { sheets: self.loaded, failures: self.failures },
        }
    }
}

} // verus!
