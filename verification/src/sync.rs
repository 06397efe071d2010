//! The sync scheduler: which date window is fetched next.
//!
//! A run fetches a short incremental window that ends today, then, as far as
//! the budget of API calls allows, fixed-width backfill windows that move
//! backward from a cursor. The scheduler itself performs no fetch and touches
//! no store: it says what is to be done, is told what came of it, and says what
//! is to be done next.

use vstd::prelude::*;
use crate::api::{FetchError, WindowResult};
use crate::dates::{formatted_days, parse_date, parsed_days, Date};
use crate::text::{decimal, opt_str, opt_text, push_decimal};

verus! {

/// Width of a backfill window, in days.
pub const BACKFILL_WINDOW_DAYS: i64 = 90;

/// Width of the incremental window, in days.
pub const INCREMENTAL_DAYS: i64 = 3;

/// The API calls that must be left in the budget for a backfill window to be
/// started. A window of more than one page takes more than one call.
pub const MIN_WINDOW_BUDGET: u32 = 2;

/// Which phase a window belongs to.
#[derive(Debug, Clone, Copy, PartialEq, Eq, Structural)]
pub enum Context {
    Incremental,
    Backfill,
}

/// A range of posting dates, both ends included.
#[derive(Debug, Clone, Copy, PartialEq, Eq, Structural)]
pub struct Window {
    pub from: Date,
    pub to: Date,
}

/// The running counts of a run.
#[derive(Debug, Clone, Copy, PartialEq, Eq, Structural)]
pub struct Progress {
    pub api_calls_used: u32,
    pub records_synced: usize,
    pub windows_completed: u32,
    pub rate_limited: bool,
}

/// The date at which backfill is told to stop.
#[derive(Debug, Clone, Copy, PartialEq, Eq, Structural)]
pub enum Floor {
    /// No floor was given.
    Absent,
    /// A floor was given, and it is not a date.
    Invalid,
    /// Backfill stops once the cursor has reached this date or passed it.
    At(Date),
}

/// What the store holds for a date-valued item.
#[derive(Debug, Clone, Copy, PartialEq, Eq, Structural)]
pub enum Lookup {
    /// The store holds nothing.
    Missing,
    /// The store holds a text that is not a date.
    Invalid,
    /// The store holds this date.
    Found(Date),
}

/// What the scheduler is told.
#[derive(Debug, Clone, Copy, PartialEq, Eq, Structural)]
pub enum Signal {
    /// The run begins.
    Begin,
    /// The window asked for was fetched, with this result.
    Fetched(WindowResult),
    /// The store was asked for the backfill cursor.
    Cursor(Lookup),
    /// The store was asked for the earliest posting date it holds.
    Earliest(Lookup),
    /// What was asked for, or what was to be done, could not be done.
    Failed,
}

/// Where a run stands.
#[derive(Debug, Clone, Copy, PartialEq, Eq, Structural)]
pub enum Phase {
    /// Nothing was done yet.
    Fresh,
    /// The incremental window is being fetched.
    Incremental { window: Window },
    /// The stored backfill cursor was asked for, to start backfill from it.
    AwaitCursor,
    /// The earliest stored posting date was asked for, to start backfill from it.
    AwaitEarliest,
    /// A backfill window is being fetched.
    Backfill { window: Window },
    /// The stored backfill cursor was asked for, for the summary.
    Closing,
    /// The run is over.
    Over,
}

/// Why a run cannot go on.
#[derive(Debug, Clone, Copy, PartialEq, Eq, Structural)]
pub enum Fault {
    /// The floor, the stored cursor or the earliest posting date is not a date.
    InvalidDate,
    /// A window would begin or end outside the dates that can be written.
    DateOutOfRange,
    /// A count would exceed what its machine integer holds.
    CounterOverflow,
    /// The scheduler was told something it had not asked for.
    UnexpectedSignal,
    /// A fetch failed, other than by the rate limit, or the store failed.
    Aborted,
}

/// Something to be done that the scheduler needs no answer to.
#[derive(Debug, Clone, Copy, PartialEq, Eq, Structural)]
pub enum PlannedEffect {
    /// A dry run: say that this window would be fetched.
    Preview { context: Context, window: Window },
    /// Record the fetch of a window in the call log.
    LogCall { context: Context, window: Window, result: WindowResult },
    /// Store the backfill cursor.
    SaveCursor(Date),
    /// Store the date of the last sync.
    SaveLastSync(Date),
}

/// Something to be done that the scheduler waits for.
#[derive(Debug, Clone, Copy, PartialEq, Eq, Structural)]
pub enum PlannedRequest {
    /// Fetch this window, storing every page.
    FetchWindow { context: Context, window: Window },
    /// Read the stored backfill cursor.
    LoadCursor,
    /// Read the earliest posting date in the store.
    LoadEarliest,
    /// Nothing: the run is over, with these counts.
    Finish(Progress),
    /// Nothing: the run cannot go on.
    Fail(Fault),
}

/// The scheduler's state, in dates and counts.
#[derive(Debug, Clone, Copy, PartialEq, Eq, Structural)]
pub struct Core {
    /// The API calls this run may make.
    pub max_api_calls: u32,
    /// Whether this run only says what it would fetch.
    pub dry_run: bool,
    /// The day of the run.
    pub today: Date,
    pub floor: Floor,
    pub progress: Progress,
    pub phase: Phase,
}

/// What the scheduler decides on a signal: its next state, what is to be done
/// at once, in this order, and what it then waits for.
pub struct Planned {
    pub core: Core,
    pub effects: Seq<PlannedEffect>,
    pub request: PlannedRequest,
}

/// The window of `width` days that ends at `end`.
pub open spec fn window_before(end: Date, width: int) -> Option<Window> {
    if i32::MIN <= end.days - width <= i32::MAX {
        Some(Window { from: Date { days: (end.days - width) as i32 }, to: end })
    } else {
        None
    }
}

/// The counts after one more window with the given result.
pub open spec fn counted(progress: Progress, result: WindowResult) -> Option<Progress> {
    if progress.api_calls_used + result.api_calls <= u32::MAX && progress.records_synced
        + result.records_fetched <= usize::MAX && progress.windows_completed + 1 <= u32::MAX {
        Some(
            Progress {
                api_calls_used: (progress.api_calls_used + result.api_calls) as u32,
                records_synced: (progress.records_synced + result.records_fetched) as usize,
                windows_completed: (progress.windows_completed + 1) as u32,
                rate_limited: progress.rate_limited || result.rate_limited,
            },
        )
    } else {
        None
    }
}

/// The run ends in a fault.
pub open spec fn failed(core: Core, effects: Seq<PlannedEffect>, fault: Fault) -> Planned {
    Planned { core: Core { phase: Phase::Over, ..core }, effects, request: PlannedRequest::Fail(fault) }
}

/// The run closes: unless it is a dry run the day of the run is stored as the
/// date of the last sync, and the stored cursor is read for the summary.
pub open spec fn closing(core: Core, effects: Seq<PlannedEffect>) -> Planned {
    Planned {
        core: Core { phase: Phase::Closing, ..core },
        effects: if core.dry_run {
            effects
        } else {
            effects.push(PlannedEffect::SaveLastSync(core.today))
        },
        request: PlannedRequest::LoadCursor,
    }
}

/// Whether the budget allows another backfill window.
pub open spec fn budget_allows(core: Core) -> bool {
    core.progress.api_calls_used + MIN_WINDOW_BUDGET <= core.max_api_calls
}

/// Backfill from `cursor`: the run closes where the budget allows no further
/// window or the cursor has reached the floor; otherwise the window of
/// [`BACKFILL_WINDOW_DAYS`] days that ends at the cursor is due. A dry run
/// says so, counts one call for it and goes on from the window's first day.
pub open spec fn backfill(core: Core, cursor: Date, effects: Seq<PlannedEffect>) -> Planned
    decreases core.max_api_calls - core.progress.api_calls_used,
{
    if !budget_allows(core) {
        closing(core, effects)
    } else if core.floor matches Floor::At(floor) && cursor.days <= floor.days {
        closing(core, effects)
    } else {
        match window_before(cursor, BACKFILL_WINDOW_DAYS as int) {
            None => failed(core, effects, Fault::DateOutOfRange),
            Some(window) => if !core.dry_run {
                Planned {
                    core: Core { phase: Phase::Backfill { window }, ..core },
                    effects,
                    request: PlannedRequest::FetchWindow { context: Context::Backfill, window },
                }
            } else if core.progress.windows_completed == u32::MAX {
                failed(core, effects, Fault::CounterOverflow)
            } else {
                backfill(
                    Core {
                        progress: Progress {
                            api_calls_used: (core.progress.api_calls_used + 1) as u32,
                            windows_completed: (core.progress.windows_completed + 1) as u32,
                            ..core.progress
                        },
                        ..core
                    },
                    window.from,
                    effects.push(
                        PlannedEffect::Preview { context: Context::Backfill, window },
                    ),
                )
            },
        }
    }
}

/// The incremental phase is over and was not rate-limited. With less than
/// [`MIN_WINDOW_BUDGET`] calls left the run closes. With a floor given,
/// backfill starts where the incremental window began; without one, the
/// stored cursor is asked for.
pub open spec fn entering_backfill(core: Core, effects: Seq<PlannedEffect>) -> Planned {
    if !budget_allows(core) {
        closing(core, effects)
    } else if core.floor is Absent {
        Planned {
            core: Core { phase: Phase::AwaitCursor, ..core },
            effects,
            request: PlannedRequest::LoadCursor,
        }
    } else {
        match window_before(core.today, INCREMENTAL_DAYS as int) {
            None => failed(core, effects, Fault::DateOutOfRange),
            Some(recent) => if core.floor is Invalid {
                failed(core, effects, Fault::InvalidDate)
            } else {
                backfill(core, recent.from, effects)
            },
        }
    }
}

/// The scheduler's rule: what it decides in each phase on each signal.
pub open spec fn planned(core: Core, signal: Signal) -> Planned {
    match (core.phase, signal) {
        (_, Signal::Failed) => failed(core, seq![], Fault::Aborted),
        (Phase::Fresh, Signal::Begin) => match window_before(
            core.today,
            INCREMENTAL_DAYS as int,
        ) {
            None => failed(core, seq![], Fault::DateOutOfRange),
            Some(window) => if core.dry_run {
                entering_backfill(
                    core,
                    seq![PlannedEffect::Preview { context: Context::Incremental, window }],
                )
            } else {
                Planned {
                    core: Core { phase: Phase::Incremental { window }, ..core },
                    effects: seq![],
                    request: PlannedRequest::FetchWindow {
                        context: Context::Incremental,
                        window,
                    },
                }
            },
        },
        (Phase::Incremental { window }, Signal::Fetched(result)) => {
            let logged = seq![
                PlannedEffect::LogCall { context: Context::Incremental, window, result },
            ];
            match counted(core.progress, result) {
                None => failed(core, logged, Fault::CounterOverflow),
                Some(progress) => if result.rate_limited {
                    closing(Core { progress, ..core }, logged)
                } else {
                    entering_backfill(Core { progress, ..core }, logged)
                },
            }
        },
        (Phase::AwaitCursor, Signal::Cursor(lookup)) => match lookup {
            Lookup::Found(cursor) => backfill(core, cursor, seq![]),
            Lookup::Invalid => failed(core, seq![], Fault::InvalidDate),
            Lookup::Missing => Planned {
                core: Core { phase: Phase::AwaitEarliest, ..core },
                effects: seq![],
                request: PlannedRequest::LoadEarliest,
            },
        },
        (Phase::AwaitEarliest, Signal::Earliest(lookup)) => match lookup {
            Lookup::Found(cursor) => backfill(core, cursor, seq![]),
            Lookup::Invalid => failed(core, seq![], Fault::InvalidDate),
            Lookup::Missing => match window_before(core.today, INCREMENTAL_DAYS as int) {
                None => failed(core, seq![], Fault::DateOutOfRange),
                Some(recent) => backfill(core, recent.from, seq![]),
            },
        },
        (Phase::Backfill { window }, Signal::Fetched(result)) => {
            let logged = seq![
                PlannedEffect::LogCall { context: Context::Backfill, window, result },
            ];
            match counted(core.progress, result) {
                None => failed(core, logged, Fault::CounterOverflow),
                Some(progress) => {
                    let saved = logged.push(PlannedEffect::SaveCursor(window.from));
                    if result.rate_limited {
                        closing(Core { progress, ..core }, saved)
                    } else {
                        backfill(Core { progress, ..core }, window.from, saved)
                    }
                },
            }
        },
        (Phase::Closing, Signal::Cursor(_)) => Planned {
            core: Core { phase: Phase::Over, ..core },
            effects: seq![],
            request: PlannedRequest::Finish(core.progress),
        },
        _ => failed(core, seq![], Fault::UnexpectedSignal),
    }
}

/// What is to be done on a signal, as the scheduler hands it out.
#[derive(Debug, Clone)]
pub struct Plan {
    /// What is to be done at once, in this order.
    pub effects: Vec<PlannedEffect>,
    /// What the scheduler then waits for.
    pub request: PlannedRequest,
}

/// The window of `width` days that ends at `end`.
pub fn window_ending(end: Date, width: i64) -> (window: Option<Window>)
    ensures
        window == window_before(end, width as int),
{
    match end.minus_days(width) {
        Some(from) => Some(Window { from, to: end }),
        None => None,
    }
}

/// Adds one window's result to the counts.
pub fn count_window(progress: Progress, result: WindowResult) -> (sum: Option<Progress>)
    ensures
        sum == counted(progress, result),
{
    if result.api_calls > u32::MAX - progress.api_calls_used {
        return None;
    }
    if result.records_fetched > usize::MAX - progress.records_synced {
        return None;
    }
    if progress.windows_completed == u32::MAX {
        return None;
    }
    Some(
        Progress {
            api_calls_used: progress.api_calls_used + result.api_calls,
            records_synced: progress.records_synced + result.records_fetched,
            windows_completed: progress.windows_completed + 1,
            rate_limited: progress.rate_limited || result.rate_limited,
        },
    )
}

impl Core {
    /// The state of a run that has not begun.
    pub fn new(max_api_calls: u32, dry_run: bool, floor: Floor, today: Date) -> (core: Core)
        ensures
            core.wf(),
            core == (Core {
                max_api_calls,
                dry_run,
                today,
                floor,
                progress: Progress {
                    api_calls_used: 0,
                    records_synced: 0,
                    windows_completed: 0,
                    rate_limited: false,
                },
                phase: Phase::Fresh,
            }),
    {
        Core {
            max_api_calls,
            dry_run,
            today,
            floor,
            progress: Progress {
                api_calls_used: 0,
                records_synced: 0,
                windows_completed: 0,
                rate_limited: false,
            },
            phase: Phase::Fresh,
        }
    }

    fn fail(&mut self, effects: Vec<PlannedEffect>, fault: Fault) -> (plan: Plan)
        ensures
            failed(*old(self), effects@, fault) == (Planned {
                core: *final(self),
                effects: plan.effects@,
                request: plan.request,
            }),
    {
        self.phase = Phase::Over;
        Plan { effects, request: PlannedRequest::Fail(fault) }
    }

    fn close(&mut self, effects: Vec<PlannedEffect>) -> (plan: Plan)
        ensures
            closing(*old(self), effects@) == (Planned {
                core: *final(self),
                effects: plan.effects@,
                request: plan.request,
            }),
    {
        let mut effects = effects;
        if !self.dry_run {
            effects.push(PlannedEffect::SaveLastSync(self.today));
        }
        self.phase = Phase::Closing;
        Plan { effects, request: PlannedRequest::LoadCursor }
    }

    fn has_budget(&self) -> (yes: bool)
        ensures
            yes == budget_allows(*self),
    {
        self.max_api_calls >= MIN_WINDOW_BUDGET && self.progress.api_calls_used
            <= self.max_api_calls - MIN_WINDOW_BUDGET
    }

    fn run_backfill(&mut self, start: Date, done: Vec<PlannedEffect>) -> (plan: Plan)
        ensures
            backfill(*old(self), start, done@) == (Planned {
                core: *final(self),
                effects: plan.effects@,
                request: plan.request,
            }),
    {
        let ghost goal = backfill(*old(self), start, done@);
        let mut effects = done;
        let mut cursor = start;
        loop
            invariant
                backfill(*self, cursor, effects@) == goal,
                goal == backfill(*old(self), start, done@),
            decreases self.max_api_calls - self.progress.api_calls_used,
        {
            if !self.has_budget() {
                return self.close(effects);
            }
            let at_floor = match self.floor {
                Floor::At(floor) => cursor.on_or_before(&floor),
                _ => false,
            };
            if at_floor {
                return self.close(effects);
            }
            match window_ending(cursor, BACKFILL_WINDOW_DAYS) {
                None => {
                    return self.fail(effects, Fault::DateOutOfRange);
                },
                Some(window) => {
                    if !self.dry_run {
                        self.phase = Phase::Backfill { window };
                        return Plan {
                            effects,
                            request: PlannedRequest::FetchWindow {
                                context: Context::Backfill,
                                window,
                            },
                        };
                    }
                    if self.progress.windows_completed == u32::MAX {
                        return self.fail(effects, Fault::CounterOverflow);
                    }
                    self.progress.api_calls_used = self.progress.api_calls_used + 1;
                    self.progress.windows_completed = self.progress.windows_completed + 1;
                    effects.push(PlannedEffect::Preview { context: Context::Backfill, window });
                    cursor = window.from;
                },
            }
        }
    }

    fn enter_backfill(&mut self, effects: Vec<PlannedEffect>) -> (plan: Plan)
        ensures
            entering_backfill(*old(self), effects@) == (Planned {
                core: *final(self),
                effects: plan.effects@,
                request: plan.request,
            }),
    {
        if !self.has_budget() {
            return self.close(effects);
        }
        match self.floor {
            Floor::Absent => {
                self.phase = Phase::AwaitCursor;
                Plan { effects, request: PlannedRequest::LoadCursor }
            },
            Floor::Invalid => match window_ending(self.today, INCREMENTAL_DAYS) {
                None => self.fail(effects, Fault::DateOutOfRange),
                Some(_) => self.fail(effects, Fault::InvalidDate),
            },
            Floor::At(_) => match window_ending(self.today, INCREMENTAL_DAYS) {
                None => self.fail(effects, Fault::DateOutOfRange),
                Some(recent) => self.run_backfill(recent.from, effects),
            },
        }
    }

    /// Takes a signal and decides, by the rule [`planned`], what is to be done.
    pub fn plan(&mut self, signal: Signal) -> (plan: Plan)
        ensures
            planned(*old(self), signal) == (Planned {
                core: *final(self),
                effects: plan.effects@,
                request: plan.request,
            }),
    {
        let mut effects: Vec<PlannedEffect> = Vec::new();
        match (self.phase, signal) {
            (_, Signal::Failed) => self.fail(effects, Fault::Aborted),
            (Phase::Fresh, Signal::Begin) => match window_ending(self.today, INCREMENTAL_DAYS) {
                None => self.fail(effects, Fault::DateOutOfRange),
                Some(window) => if self.dry_run {
                    effects.push(
                        PlannedEffect::Preview { context: Context::Incremental, window },
                    );
                    self.enter_backfill(effects)
                } else {
                    self.phase = Phase::Incremental { window };
                    Plan {
                        effects,
                        request: PlannedRequest::FetchWindow {
                            context: Context::Incremental,
                            window,
                        },
                    }
                },
            },
            (Phase::Incremental { window }, Signal::Fetched(result)) => {
                effects.push(
                    PlannedEffect::LogCall { context: Context::Incremental, window, result },
                );
                match count_window(self.progress, result) {
                    None => self.fail(effects, Fault::CounterOverflow),
                    Some(progress) => {
                        self.progress = progress;
                        if result.rate_limited {
                            self.close(effects)
                        } else {
                            self.enter_backfill(effects)
                        }
                    },
                }
            },
            (Phase::AwaitCursor, Signal::Cursor(lookup)) => match lookup {
                Lookup::Found(cursor) => self.run_backfill(cursor, effects),
                Lookup::Invalid => self.fail(effects, Fault::InvalidDate),
                Lookup::Missing => {
                    self.phase = Phase::AwaitEarliest;
                    Plan { effects, request: PlannedRequest::LoadEarliest }
                },
            },
            (Phase::AwaitEarliest, Signal::Earliest(lookup)) => match lookup {
                Lookup::Found(cursor) => self.run_backfill(cursor, effects),
                Lookup::Invalid => self.fail(effects, Fault::InvalidDate),
                Lookup::Missing => match window_ending(self.today, INCREMENTAL_DAYS) {
                    None => self.fail(effects, Fault::DateOutOfRange),
                    Some(recent) => self.run_backfill(recent.from, effects),
                },
            },
            (Phase::Backfill { window }, Signal::Fetched(result)) => {
                effects.push(
                    PlannedEffect::LogCall { context: Context::Backfill, window, result },
                );
                match count_window(self.progress, result) {
                    None => self.fail(effects, Fault::CounterOverflow),
                    Some(progress) => {
                        self.progress = progress;
                        effects.push(PlannedEffect::SaveCursor(window.from));
                        if result.rate_limited {
                            self.close(effects)
                        } else {
                            self.run_backfill(window.from, effects)
                        }
                    },
                }
            },
            (Phase::Closing, Signal::Cursor(_)) => {
                self.phase = Phase::Over;
                Plan { effects, request: PlannedRequest::Finish(self.progress) }
            },
            _ => self.fail(effects, Fault::UnexpectedSignal),
        }
    }
}

/// The outcome of a run, for the operator.
#[derive(Debug, Clone)]
pub struct SyncSummary {
    pub api_calls_used: u32,
    pub records_synced: usize,
    pub windows_completed: u32,
    pub rate_limited: bool,
    /// The backfill cursor as the store holds it when the run ends.
    pub backfill_cursor: Option<String>,
}

/// Why a run could not go on.
#[derive(Debug, Clone)]
pub enum SyncError {
    /// This text was to be read as a date, and is none.
    InvalidDate { input: String },
    /// A window would begin or end outside the dates that can be written.
    DateOutOfRange,
    /// A count would exceed what its machine integer holds.
    CounterOverflow,
    /// The scheduler was told something it had not asked for.
    UnexpectedEvent,
    /// A fetch failed, other than by the rate limit.
    Fetch(FetchError),
    /// The store failed to read what was asked for or to write what was to be
    /// written.
    Store { message: String },
}

/// The keys of the values that the scheduler keeps in the store.
#[derive(Debug, Clone, Copy, PartialEq, Eq, Structural)]
pub enum StateKey {
    BackfillCursor,
    LastSync,
}

impl StateKey {
    /// The key as the store spells it.
    pub open spec fn name_text(self) -> Seq<char> {
        match self {
            StateKey::BackfillCursor => "backfill_cursor"@,
            StateKey::LastSync => "last_sync"@,
        }
    }

    /// The key as the store spells it.
    pub fn name(&self) -> (name: &'static str)
        ensures
            name@ == self.name_text(),
    {
        match self {
            StateKey::BackfillCursor => "backfill_cursor",
            StateKey::LastSync => "last_sync",
        }
    }
}

impl Context {
    /// The tag of this phase in the call log.
    pub open spec fn tag_text(self) -> Seq<char> {
        match self {
            Context::Incremental => "incremental"@,
            Context::Backfill => "backfill"@,
        }
    }

    /// The tag of this phase in the call log.
    pub fn tag(&self) -> (tag: &'static str)
        ensures
            tag@ == self.tag_text(),
    {
        match self {
            Context::Incremental => "incremental",
            Context::Backfill => "backfill",
        }
    }
}

/// A [`PlannedEffect`] with its dates written out.
#[derive(Debug, Clone)]
pub enum Effect {
    /// A dry run: say that this window would be fetched.
    Preview { context: Context, from: String, to: String },
    /// Record the fetch of a window in the call log. A failure to do so is
    /// reported to the operator and does not end the run.
    LogCall { context: Context, from: String, to: String, result: WindowResult },
    /// Store a value under a key. A failure to do so ends the run.
    SaveState { key: StateKey, value: String },
}

/// A [`PlannedRequest`] with its dates written out.
#[derive(Debug, Clone)]
pub enum Request {
    /// Fetch this window, storing every page. A failure other than the rate
    /// limit ends the run.
    FetchWindow { context: Context, from: String, to: String },
    /// Read the stored backfill cursor.
    LoadCursor,
    /// Read the earliest posting date in the store.
    LoadEarliest,
    /// Nothing: the run is over.
    Finish(SyncSummary),
    /// Nothing: the run cannot go on.
    Fail(SyncError),
}

/// What is to be done on an event.
#[derive(Debug, Clone)]
pub struct Step {
    /// What is to be done at once, in this order.
    pub effects: Vec<Effect>,
    /// What the scheduler then waits for.
    pub request: Request,
}

/// A date-valued item as the store returned it, and what it reads as.
#[derive(Debug, Clone)]
pub struct Stored {
    pub text: Option<String>,
    pub lookup: Lookup,
}

/// What the scheduler is told, with the texts that came from the store.
#[derive(Debug, Clone)]
pub enum Event {
    /// The run begins.
    Begin,
    /// The window asked for was fetched, with this result.
    Fetched(WindowResult),
    /// The store was asked for the backfill cursor and returned this.
    Cursor(Stored),
    /// The store was asked for the earliest posting date and returned this.
    Earliest(Stored),
    /// The window asked for could not be fetched, and not because of the rate
    /// limit.
    FetchFailed(FetchError),
    /// The store failed: it could not be read, or a value could not be stored.
    /// A call that could not be logged is no such failure.
    StoreFailed { message: String },
}

/// `lookup` is what `text` reads as.
pub open spec fn reads_as(text: Option<Seq<char>>, lookup: Lookup) -> bool {
    match lookup {
        Lookup::Missing => text is None,
        Lookup::Invalid => text matches Some(given) && parsed_days(given) is None,
        Lookup::Found(date) => text matches Some(given) && parsed_days(given) == Some(
            date.days as int,
        ),
    }
}

/// `floor` is what the floor text given to a run reads as.
pub open spec fn floor_reads_as(text: Option<Seq<char>>, floor: Floor) -> bool {
    match floor {
        Floor::Absent => text is None,
        Floor::Invalid => text matches Some(given) && parsed_days(given) is None,
        Floor::At(date) => text matches Some(given) && parsed_days(given) == Some(
            date.days as int,
        ),
    }
}

impl Stored {
    /// Reads what the store returned for a date-valued item.
    pub fn read(text: Option<String>) -> (stored: Stored)
        ensures
            stored.text == text,
            reads_as(opt_text(text), stored.lookup),
    {
        let lookup = match &text {
            None => Lookup::Missing,
            Some(given) => match parse_date(given.as_str()) {
                Ok(date) => Lookup::Found(date),
                Err(_) => Lookup::Invalid,
            },
        };
        Stored { text, lookup }
    }
}

impl Event {
    /// What the event tells the scheduler, in dates.
    pub open spec fn signal(self) -> Signal {
        match self {
            Event::Begin => Signal::Begin,
            Event::Fetched(result) => Signal::Fetched(result),
            Event::Cursor(stored) => Signal::Cursor(stored.lookup),
            Event::Earliest(stored) => Signal::Earliest(stored.lookup),
            Event::FetchFailed(failure) => Signal::Failed,
            Event::StoreFailed { message } => Signal::Failed,
        }
    }

    /// The failure that the event tells of.
    pub open spec fn cause(self) -> Option<SyncError> {
        match self {
            Event::FetchFailed(failure) => Some(SyncError::Fetch(failure)),
            Event::StoreFailed { message } => Some(SyncError::Store { message }),
            _ => None,
        }
    }

    /// The text that came from the store with this event.
    pub open spec fn offered(self) -> Option<Seq<char>> {
        match self {
            Event::Cursor(stored) => opt_text(stored.text),
            Event::Earliest(stored) => opt_text(stored.text),
            _ => None,
        }
    }
}

/// Both ends of the window can be written as dates.
pub open spec fn window_writable(window: Window) -> bool {
    formatted_days(window.from.days as int) is Some && formatted_days(window.to.days as int)
        is Some
}

/// `from` and `to` are the window's two ends written as dates.
pub open spec fn window_shown(window: Window, from: Seq<char>, to: Seq<char>) -> bool {
    formatted_days(window.from.days as int) == Some(from) && formatted_days(
        window.to.days as int,
    ) == Some(to)
}

/// Every date in the effect can be written.
pub open spec fn effect_writable(effect: PlannedEffect) -> bool {
    match effect {
        PlannedEffect::Preview { context, window } => window_writable(window),
        PlannedEffect::LogCall { context, window, result } => window_writable(window),
        PlannedEffect::SaveCursor(date) => formatted_days(date.days as int) is Some,
        PlannedEffect::SaveLastSync(date) => formatted_days(date.days as int) is Some,
    }
}

/// `shown` is `effect` with its dates written out.
pub open spec fn effect_shown(effect: PlannedEffect, shown: Effect) -> bool {
    match effect {
        PlannedEffect::Preview { context, window } => shown matches Effect::Preview {
            context: tag,
            from,
            to,
        } && tag == context && window_shown(window, from@, to@),
        PlannedEffect::LogCall { context, window, result } => shown matches Effect::LogCall {
            context: tag,
            from,
            to,
            result: outcome,
        } && tag == context && outcome == result && window_shown(window, from@, to@),
        PlannedEffect::SaveCursor(date) => shown matches Effect::SaveState { key, value } && key
            == StateKey::BackfillCursor && formatted_days(date.days as int) == Some(value@),
        PlannedEffect::SaveLastSync(date) => shown matches Effect::SaveState { key, value }
            && key == StateKey::LastSync && formatted_days(date.days as int) == Some(value@),
    }
}

/// Every date in the request can be written.
pub open spec fn request_writable(request: PlannedRequest) -> bool {
    match request {
        PlannedRequest::FetchWindow { context, window } => window_writable(window),
        _ => true,
    }
}

/// `shown` says what `fault` says; an invalid date is shown with `input`, the
/// text that is no date, and a failure that the scheduler was told of is
/// shown as it came.
pub open spec fn fault_shown(
    fault: Fault,
    input: Seq<char>,
    cause: Option<SyncError>,
    shown: SyncError,
) -> bool {
    match fault {
        Fault::InvalidDate => shown matches SyncError::InvalidDate { input: given } && given@
            == input,
        Fault::DateOutOfRange => shown is DateOutOfRange,
        Fault::CounterOverflow => shown is CounterOverflow,
        Fault::UnexpectedSignal => shown is UnexpectedEvent,
        Fault::Aborted => match cause {
            Some(failure) => shown == failure,
            None => shown is UnexpectedEvent,
        },
    }
}

/// `shown` holds the counts of `progress` and the cursor text `cursor`.
pub open spec fn summary_shown(
    progress: Progress,
    cursor: Option<Seq<char>>,
    shown: SyncSummary,
) -> bool {
    &&& shown.api_calls_used == progress.api_calls_used
    &&& shown.records_synced == progress.records_synced
    &&& shown.windows_completed == progress.windows_completed
    &&& shown.rate_limited == progress.rate_limited
    &&& opt_text(shown.backfill_cursor) == cursor
}

/// `shown` is `request` with its dates written out. A summary carries the
/// cursor text `offered` by the store; an invalid date is shown with `input`,
/// a failure that the scheduler was told of as `cause`.
pub open spec fn request_shown(
    request: PlannedRequest,
    offered: Option<Seq<char>>,
    input: Seq<char>,
    cause: Option<SyncError>,
    shown: Request,
) -> bool {
    match request {
        PlannedRequest::FetchWindow { context, window } => shown matches Request::FetchWindow {
            context: tag,
            from,
            to,
        } && tag == context && window_shown(window, from@, to@),
        PlannedRequest::LoadCursor => shown is LoadCursor,
        PlannedRequest::LoadEarliest => shown is LoadEarliest,
        PlannedRequest::Finish(progress) => shown matches Request::Finish(summary)
            && summary_shown(progress, offered, summary),
        PlannedRequest::Fail(fault) => shown matches Request::Fail(error) && fault_shown(
            fault,
            input,
            cause,
            error,
        ),
    }
}

/// The two ends of a window written as dates, and `None` where one of them
/// cannot be written.
pub fn show_window(window: Window) -> (texts: Option<(String, String)>)
    ensures
        match texts {
            Some((from, to)) => window_shown(window, from@, to@),
            None => !window_writable(window),
        },
{
    match window.from.format() {
        None => None,
        Some(from) => match window.to.format() {
            None => None,
            Some(to) => Some((from, to)),
        },
    }
}

/// An effect with its dates written out, and `None` where one of them cannot
/// be written.
pub fn show_effect(effect: PlannedEffect) -> (shown: Option<Effect>)
    ensures
        match shown {
            Some(written) => effect_shown(effect, written),
            None => !effect_writable(effect),
        },
{
    match effect {
        PlannedEffect::Preview { context, window } => match show_window(window) {
            Some((from, to)) => Some(Effect::Preview { context, from, to }),
            None => None,
        },
        PlannedEffect::LogCall { context, window, result } => match show_window(window) {
            Some((from, to)) => Some(Effect::LogCall { context, from, to, result }),
            None => None,
        },
        PlannedEffect::SaveCursor(date) => match date.format() {
            Some(value) => Some(Effect::SaveState { key: StateKey::BackfillCursor, value }),
            None => None,
        },
        PlannedEffect::SaveLastSync(date) => match date.format() {
            Some(value) => Some(Effect::SaveState { key: StateKey::LastSync, value }),
            None => None,
        },
    }
}

/// A request with its dates written out, and `None` where one of them cannot
/// be written.
pub fn show_request(
    request: PlannedRequest,
    offered: Option<String>,
    input: String,
    cause: Option<SyncError>,
) -> (shown: Option<Request>)
    ensures
        match shown {
            Some(written) => request_shown(request, opt_text(offered), input@, cause, written),
            None => !request_writable(request),
        },
{
    match request {
        PlannedRequest::FetchWindow { context, window } => match show_window(window) {
            Some((from, to)) => Some(Request::FetchWindow { context, from, to }),
            None => None,
        },
        PlannedRequest::LoadCursor => Some(Request::LoadCursor),
        PlannedRequest::LoadEarliest => Some(Request::LoadEarliest),
        PlannedRequest::Finish(progress) => Some(
            Request::Finish(
                SyncSummary {
                    api_calls_used: progress.api_calls_used,
                    records_synced: progress.records_synced,
                    windows_completed: progress.windows_completed,
                    rate_limited: progress.rate_limited,
                    backfill_cursor: offered,
                },
            ),
        ),
        PlannedRequest::Fail(fault) => Some(
            Request::Fail(
                match fault {
                    Fault::InvalidDate => SyncError::InvalidDate { input },
                    Fault::DateOutOfRange => SyncError::DateOutOfRange,
                    Fault::CounterOverflow => SyncError::CounterOverflow,
                    Fault::UnexpectedSignal => SyncError::UnexpectedEvent,
                    Fault::Aborted => match cause {
                        Some(failure) => failure,
                        None => SyncError::UnexpectedEvent,
                    },
                },
            ),
        ),
    }
}

/// The scheduler of one run.
#[derive(Debug, Clone)]
pub struct Scheduler {
    pub core: Core,
    /// The floor as it was given to the run.
    pub floor_text: Option<String>,
}

impl Scheduler {
    /// The scheduler of a run on the day `today` that may make
    /// `max_api_calls` API calls. With `from_override` backfill starts where
    /// the incremental window begins and stops at that date. The text is read
    /// here; that it is no date comes out only when backfill begins.
    pub fn new(
        max_api_calls: u32,
        dry_run: bool,
        from_override: Option<&str>,
        today: Date,
    ) -> (scheduler: Scheduler)
        ensures
            opt_text(scheduler.floor_text) == opt_str(from_override),
            floor_reads_as(opt_str(from_override), scheduler.core.floor),
            scheduler.core == (Core {
                max_api_calls,
                dry_run,
                today,
                floor: scheduler.core.floor,
                progress: Progress {
                    api_calls_used: 0,
                    records_synced: 0,
                    windows_completed: 0,
                    rate_limited: false,
                },
                phase: Phase::Fresh,
            }),
    {
        let (floor, floor_text) = match from_override {
            None => (Floor::Absent, None),
            Some(given) => match parse_date(given) {
                Ok(date) => (Floor::At(date), Some(String::from_str(given))),
                Err(_) => (Floor::Invalid, Some(String::from_str(given))),
            },
        };
        Scheduler { core: Core::new(max_api_calls, dry_run, floor, today), floor_text }
    }

    /// The text that an invalid-date error on `event` is about: the text that
    /// came with the event, else the floor given to the run.
    pub open spec fn input_text(self, event: Event) -> Seq<char> {
        match event.offered() {
            Some(text) => text,
            None => match self.floor_text {
                Some(text) => text@,
                None => Seq::empty(),
            },
        }
    }

    /// Takes an event and says what is to be done: what [`planned`] decides,
    /// with every date written out. Effects are written out in order; where a
    /// date cannot be written, the step holds the effects before it and the
    /// run fails.
    pub fn step(&mut self, event: Event) -> (step: Step)
        ensures
            final(self).floor_text == old(self).floor_text,
            ({
                let decided = planned(old(self).core, event.signal());
                let written = step.effects@.len() as int;
                &&& written <= decided.effects.len()
                &&& forall|i: int|
                    0 <= i < written ==> effect_shown(
                        #[trigger] decided.effects[i],
                        step.effects@[i],
                    )
                &&& if written == decided.effects.len() && request_writable(decided.request) {
                    &&& final(self).core == decided.core
                    &&& request_shown(
                        decided.request,
                        event.offered(),
                        old(self).input_text(event),
                        event.cause(),
                        step.request,
                    )
                } else {
                    &&& written < decided.effects.len() ==> !effect_writable(
                        decided.effects[written],
                    )
                    &&& final(self).core == (Core { phase: Phase::Over, ..decided.core })
                    &&& step.request matches Request::Fail(error) && error is DateOutOfRange
                }
            }),
    {
        let (signal, offered, cause) = match event {
            Event::Begin => (Signal::Begin, None, None),
            Event::Fetched(result) => (Signal::Fetched(result), None, None),
            Event::Cursor(stored) => (Signal::Cursor(stored.lookup), stored.text, None),
            Event::Earliest(stored) => (Signal::Earliest(stored.lookup), stored.text, None),
            Event::FetchFailed(failure) => (Signal::Failed, None, Some(SyncError::Fetch(failure))),
            Event::StoreFailed { message } => (
                Signal::Failed,
                None,
                Some(SyncError::Store { message }),
            ),
        };
        let input = match &offered {
            Some(text) => text.clone(),
            None => match &self.floor_text {
                Some(text) => text.clone(),
                None => String::new(),
            },
        };
        let plan = self.core.plan(signal);
        let ghost decided = planned(old(self).core, event.signal());
        let mut effects: Vec<Effect> = Vec::new();
        let mut i: usize = 0;
        while i < plan.effects.len()
            invariant
                0 <= i <= plan.effects.len(),
                effects@.len() == i,
                decided == planned(old(self).core, event.signal()),
                plan.effects@ == decided.effects,
                plan.request == decided.request,
                self.core == decided.core,
                self.floor_text == old(self).floor_text,
                forall|j: int|
                    0 <= j < i ==> effect_shown(#[trigger] plan.effects@[j], effects@[j]),
            decreases plan.effects.len() - i,
        {
            match show_effect(plan.effects[i]) {
                Some(shown) => {
                    effects.push(shown);
                },
                None => {
                    self.core.phase = Phase::Over;
                    return Step { effects, request: Request::Fail(SyncError::DateOutOfRange) };
                },
            }
            i += 1;
        }
        match show_request(plan.request, offered, input, cause) {
            Some(request) => Step { effects, request },
            None => {
                self.core.phase = Phase::Over;
                Step { effects, request: Request::Fail(SyncError::DateOutOfRange) }
            },
        }
    }
}

impl Core {
    /// What holds of every state that a run reaches: a window that is being
    /// backfilled has the fixed width, and a dry run has no window fetched.
    pub open spec fn wf(self) -> bool {
        &&& self.phase matches Phase::Backfill { window } ==> window_before(
            window.to,
            BACKFILL_WINDOW_DAYS as int,
        ) == Some(window)
        &&& self.dry_run ==> !(self.phase is Incremental) && !(self.phase is Backfill)
    }
}

/// What backfill from a cursor comes to: the settings of the run stay, what
/// was to be done before stays to be done first, and the run either closes,
/// fails, or asks for the window that ends at the cursor, within the budget.
pub proof fn lemma_backfill(core: Core, cursor: Date, effects: Seq<PlannedEffect>)
    ensures
        ({
            let next = backfill(core, cursor, effects);
            &&& next.core.max_api_calls == core.max_api_calls
            &&& next.core.dry_run == core.dry_run
            &&& next.core.today == core.today
            &&& next.core.floor == core.floor
            &&& next.core.wf()
            &&& effects.len() <= next.effects.len()
            &&& next.effects.take(effects.len() as int) == effects
            &&& match next.request {
                PlannedRequest::FetchWindow { context, window } => {
                    &&& !core.dry_run
                    &&& context == Context::Backfill
                    &&& next.core.phase == (Phase::Backfill { window })
                    &&& budget_allows(core)
                    &&& window_before(cursor, BACKFILL_WINDOW_DAYS as int) == Some(window)
                    &&& next.core.progress == core.progress
                    &&& next.effects == effects
                },
                PlannedRequest::LoadCursor => next.core.phase == Phase::Closing,
                PlannedRequest::Fail(fault) => next.core.phase == Phase::Over,
                _ => false,
            }
        }),
    decreases core.max_api_calls - core.progress.api_calls_used,
{
    let next = backfill(core, cursor, effects);
    if !budget_allows(core) {
        assert(next.effects.take(effects.len() as int) == effects);
    } else if core.floor matches Floor::At(floor) && cursor.days <= floor.days {
        assert(next.effects.take(effects.len() as int) == effects);
    } else {
        match window_before(cursor, BACKFILL_WINDOW_DAYS as int) {
            None => {
                assert(next.effects.take(effects.len() as int) == effects);
            },
            Some(window) => {
                if !core.dry_run {
                    assert(next.effects.take(effects.len() as int) == effects);
                } else if core.progress.windows_completed == u32::MAX {
                    assert(next.effects.take(effects.len() as int) == effects);
                } else {
                    let moved = Core {
                        progress: Progress {
                            api_calls_used: (core.progress.api_calls_used + 1) as u32,
                            windows_completed: (core.progress.windows_completed + 1) as u32,
                            ..core.progress
                        },
                        ..core
                    };
                    let more = effects.push(
                        PlannedEffect::Preview { context: Context::Backfill, window },
                    );
                    lemma_backfill(moved, window.from, more);
                    assert(next.effects.take(effects.len() as int) == next.effects.take(
                        more.len() as int,
                    ).take(effects.len() as int));
                    assert(more.take(effects.len() as int) == effects);
                }
            },
        }
    }
}

/// The first day of the window that an effect is about; for a stored date,
/// that date.
pub open spec fn first_day(effect: PlannedEffect) -> Date {
    match effect {
        PlannedEffect::Preview { context, window } => window.from,
        PlannedEffect::LogCall { context, window, result } => window.from,
        PlannedEffect::SaveCursor(date) => date,
        PlannedEffect::SaveLastSync(date) => date,
    }
}

/// `effect` says that the backfill window of the fixed width that ends at
/// `end` would be fetched.
pub open spec fn previews_window_at(effect: PlannedEffect, end: Date) -> bool {
    effect matches PlannedEffect::Preview { context, window } && context == Context::Backfill
        && window_before(end, BACKFILL_WINDOW_DAYS as int) == Some(window)
}

/// In a dry run, backfill fetches nothing and only says which windows it
/// would fetch: the first one ends at the cursor, each further one ends where
/// the one before it began, all have the fixed width, and each is counted as
/// one API call and one window.
pub proof fn lemma_dry_backfill(core: Core, cursor: Date, effects: Seq<PlannedEffect>)
    requires
        core.dry_run,
    ensures
        ({
            let next = backfill(core, cursor, effects);
            let added = next.effects.len() - effects.len();
            &&& !(next.request is FetchWindow)
            &&& next.core.progress.records_synced == core.progress.records_synced
            &&& next.core.progress.rate_limited == core.progress.rate_limited
            &&& next.core.progress.api_calls_used == core.progress.api_calls_used + added
            &&& next.core.progress.windows_completed == core.progress.windows_completed + added
            &&& forall|i: int|
                effects.len() <= i < next.effects.len() ==> previews_window_at(
                    #[trigger] next.effects[i],
                    if i == effects.len() {
                        cursor
                    } else {
                        first_day(next.effects[i - 1])
                    },
                )
        }),
    decreases core.max_api_calls - core.progress.api_calls_used,
{
    let next = backfill(core, cursor, effects);
    lemma_backfill(core, cursor, effects);
    if budget_allows(core) && !(core.floor matches Floor::At(floor) && cursor.days <= floor.days) {
        match window_before(cursor, BACKFILL_WINDOW_DAYS as int) {
            None => {},
            Some(window) => {
                if core.progress.windows_completed != u32::MAX {
                    let moved = Core {
                        progress: Progress {
                            api_calls_used: (core.progress.api_calls_used + 1) as u32,
                            windows_completed: (core.progress.windows_completed + 1) as u32,
                            ..core.progress
                        },
                        ..core
                    };
                    let more = effects.push(
                        PlannedEffect::Preview { context: Context::Backfill, window },
                    );
                    lemma_backfill(moved, window.from, more);
                    lemma_dry_backfill(moved, window.from, more);
                    assert(next.effects.take(more.len() as int)[effects.len() as int]
                        == more[effects.len() as int]);
                }
            },
        }
    }
}

/// Whatever the scheduler is told, it keeps the settings of the run, and a
/// well-formed state stays well-formed.
pub proof fn law_state_stays_well_formed(core: Core, signal: Signal)
    requires
        core.wf(),
    ensures
        planned(core, signal).core.wf(),
        planned(core, signal).core.max_api_calls == core.max_api_calls,
        planned(core, signal).core.dry_run == core.dry_run,
        planned(core, signal).core.today == core.today,
        planned(core, signal).core.floor == core.floor,
{
    lemma_planned(core, signal);
}

/// No backfill window is asked for unless the budget has at least
/// [`MIN_WINDOW_BUDGET`] calls left.
pub proof fn law_backfill_within_budget(core: Core, signal: Signal)
    requires
        planned(core, signal).request matches PlannedRequest::FetchWindow { context, window }
            && context == Context::Backfill,
    ensures
        budget_allows(planned(core, signal).core),
{
    lemma_planned(core, signal);
}

/// Every backfill window that was fetched and counted has its first day
/// stored as the new cursor, directly after the call is logged, whether or not
/// the fetch was rate-limited. That day is [`BACKFILL_WINDOW_DAYS`] days
/// before the old cursor. If another window is then asked for, it ends at the
/// new cursor and has the same width.
pub proof fn law_cursor_moves_back_one_window(core: Core, window: Window, result: WindowResult)
    requires
        core.wf(),
        core.phase == (Phase::Backfill { window }),
        counted(core.progress, result) is Some,
    ensures
        window.from.days == window.to.days - BACKFILL_WINDOW_DAYS,
        ({
            let next = planned(core, Signal::Fetched(result));
            &&& next.effects.len() >= 2
            &&& next.effects[0] == (PlannedEffect::LogCall {
                context: Context::Backfill,
                window,
                result,
            })
            &&& next.effects[1] == PlannedEffect::SaveCursor(window.from)
            &&& next.request matches PlannedRequest::FetchWindow { context, window: following }
                ==> following.to == window.from && following.from.days == window.from.days
                - BACKFILL_WINDOW_DAYS
        }),
{
    let progress = counted(core.progress, result).unwrap();
    let saved = seq![
        PlannedEffect::LogCall { context: Context::Backfill, window, result },
        PlannedEffect::SaveCursor(window.from),
    ];
    let moved = Core { progress, ..core };
    let next = planned(core, Signal::Fetched(result));
    assert(seq![PlannedEffect::LogCall { context: Context::Backfill, window, result }].push(
        PlannedEffect::SaveCursor(window.from),
    ) == saved);
    if !result.rate_limited {
        lemma_backfill(moved, window.from, saved);
        assert(next.effects.take(2)[0] == saved[0]);
        assert(next.effects.take(2)[1] == saved[1]);
    }
}

/// A run that is interrupted after a backfill window resumes with the next
/// window, not with the first: told the cursor that was stored after the
/// window, a later run asks for exactly the window that the interrupted run
/// would have asked for next.
pub proof fn law_resumed_run_continues(
    core: Core,
    window: Window,
    result: WindowResult,
    later: Core,
)
    requires
        core.wf(),
        core.phase == (Phase::Backfill { window }),
        counted(core.progress, result) is Some,
        !result.rate_limited,
        planned(core, Signal::Fetched(result)).request is FetchWindow,
        later.phase == Phase::AwaitCursor,
        !later.dry_run,
        budget_allows(later),
        later.floor is Absent,
    ensures
        planned(later, Signal::Cursor(Lookup::Found(window.from))).request == planned(
            core,
            Signal::Fetched(result),
        ).request,
{
    let progress = counted(core.progress, result).unwrap();
    let saved = seq![
        PlannedEffect::LogCall { context: Context::Backfill, window, result },
    ].push(PlannedEffect::SaveCursor(window.from));
    lemma_backfill(Core { progress, ..core }, window.from, saved);
    lemma_backfill(later, window.from, seq![]);
}

/// A window that was fetched rate-limited is the last one of the run: the
/// summary says so, the date of the last sync is stored unless the run is a dry
/// run, and all that is left to do is to read the cursor for the summary.
pub proof fn law_rate_limit_ends_fetching(core: Core, result: WindowResult, cursor: Lookup)
    requires
        core.phase is Incremental || core.phase is Backfill,
        counted(core.progress, result) is Some,
        result.rate_limited,
    ensures
        ({
            let next = planned(core, Signal::Fetched(result));
            let last = planned(next.core, Signal::Cursor(cursor));
            &&& next.request == PlannedRequest::LoadCursor
            &&& next.core.phase == Phase::Closing
            &&& next.core.progress == counted(core.progress, result).unwrap()
            &&& next.core.progress.rate_limited
            &&& !core.dry_run ==> next.effects.last() == PlannedEffect::SaveLastSync(core.today)
            &&& last.request == PlannedRequest::Finish(next.core.progress)
            &&& last.effects.len() == 0
        }),
{
}

/// The request for the backfill window that ends at `start`.
pub open spec fn backfill_request(start: Date) -> PlannedRequest {
    PlannedRequest::FetchWindow {
        context: Context::Backfill,
        window: window_before(start, BACKFILL_WINDOW_DAYS as int).unwrap(),
    }
}

/// Where backfill starts, in this order of precedence: with a floor given,
/// where the incremental window began, and the store is not asked; else at
/// the stored cursor; else at the earliest posting date in the store; else
/// where the incremental window began. This holds of a run that is no dry run
/// and has the budget for a window: the first backfill window is then the one
/// that ends at that date.
pub proof fn law_backfill_starts_from(core: Core, cursor: Date)
    requires
        !core.dry_run,
        budget_allows(core),
        window_before(core.today, INCREMENTAL_DAYS as int) is Some,
        window_before(
            window_before(core.today, INCREMENTAL_DAYS as int).unwrap().from,
            BACKFILL_WINDOW_DAYS as int,
        ) is Some,
        window_before(cursor, BACKFILL_WINDOW_DAYS as int) is Some,
    ensures
        ({
            let recent = window_before(core.today, INCREMENTAL_DAYS as int).unwrap().from;
            let entered = entering_backfill(core, seq![]);
            let no_cursor = planned(core, Signal::Cursor(Lookup::Missing));
            &&& (core.floor is At && (core.floor->At_0).days < recent.days) ==> entered.request
                == backfill_request(recent)
            &&& core.floor is Absent ==> (entered.request == PlannedRequest::LoadCursor
                && entered.core.phase == Phase::AwaitCursor)
            &&& (core.floor is Absent && core.phase == Phase::AwaitCursor) ==> (planned(
                core,
                Signal::Cursor(Lookup::Found(cursor)),
            ).request == backfill_request(cursor) && no_cursor.request
                == PlannedRequest::LoadEarliest && no_cursor.core.phase == Phase::AwaitEarliest)
            &&& (core.floor is Absent && core.phase == Phase::AwaitEarliest) ==> (planned(
                core,
                Signal::Earliest(Lookup::Found(cursor)),
            ).request == backfill_request(cursor) && planned(
                core,
                Signal::Earliest(Lookup::Missing),
            ).request == backfill_request(recent))
        }),
{
    let recent = window_before(core.today, INCREMENTAL_DAYS as int).unwrap().from;
    lemma_backfill(core, cursor, seq![]);
    lemma_backfill(core, recent, seq![]);
}

/// A fetch that fails otherwise than by the rate limit, and a store that
/// fails, end the run at once: nothing is logged, no cursor and no date of the
/// last sync is stored, and nothing more is asked for.
pub proof fn law_failure_ends_run(core: Core)
    ensures
        planned(core, Signal::Failed) == (Planned {
            core: Core { phase: Phase::Over, ..core },
            effects: seq![],
            request: PlannedRequest::Fail(Fault::Aborted),
        }),
        planned(planned(core, Signal::Failed).core, Signal::Failed).request
            == PlannedRequest::Fail(Fault::Aborted),
{
}

/// A run that is over stays over: whatever it is told then, it fails, and
/// hands out nothing to do.
pub proof fn law_run_that_is_over_stays_over(core: Core, signal: Signal)
    requires
        core.phase == Phase::Over,
    ensures
        planned(core, signal).core == core,
        planned(core, signal).effects.len() == 0,
        planned(core, signal).request is Fail,
{
}

/// A dry run fetches nothing and writes nothing: whatever it is told, it asks
/// for no window, and all it hands out to be done is to say which windows it
/// would fetch.
pub proof fn law_dry_run_fetches_nothing(core: Core, signal: Signal)
    requires
        core.wf(),
        core.dry_run,
    ensures
        !(planned(core, signal).request is FetchWindow),
        forall|i: int|
            0 <= i < planned(core, signal).effects.len() ==> (#[trigger] planned(
                core,
                signal,
            ).effects[i]) is Preview,
{
    let next = planned(core, signal);
    lemma_planned(core, signal);
    assert forall|i: int| 0 <= i < next.effects.len() implies (#[trigger] next.effects[i])
        is Preview by {
        match (core.phase, signal) {
            (Phase::Fresh, Signal::Begin) => {
                match window_before(core.today, INCREMENTAL_DAYS as int) {
                    None => {},
                    Some(window) => {
                        let said = seq![
                            PlannedEffect::Preview { context: Context::Incremental, window },
                        ];
                        lemma_entering_backfill(core, said);
                        lemma_dry_entering_backfill(core, said);
                        if i == 0 {
                            assert(next.effects.take(1)[0] == said[0]);
                        }
                    },
                }
            },
            (Phase::AwaitCursor, Signal::Cursor(Lookup::Found(cursor))) => {
                lemma_dry_backfill(core, cursor, seq![]);
            },
            (Phase::AwaitEarliest, Signal::Earliest(Lookup::Found(cursor))) => {
                lemma_dry_backfill(core, cursor, seq![]);
            },
            (Phase::AwaitEarliest, Signal::Earliest(Lookup::Missing)) => {
                match window_before(core.today, INCREMENTAL_DAYS as int) {
                    None => {},
                    Some(recent) => {
                        lemma_dry_backfill(core, recent.from, seq![]);
                    },
                }
            },
            _ => {},
        }
    }
}

/// What entering backfill comes to, as [`lemma_backfill`] says it of backfill.
proof fn lemma_entering_backfill(core: Core, effects: Seq<PlannedEffect>)
    ensures
        ({
            let next = entering_backfill(core, effects);
            &&& next.core.max_api_calls == core.max_api_calls
            &&& next.core.dry_run == core.dry_run
            &&& next.core.today == core.today
            &&& next.core.floor == core.floor
            &&& next.core.wf()
            &&& effects.len() <= next.effects.len()
            &&& next.effects.take(effects.len() as int) == effects
            &&& next.request matches PlannedRequest::FetchWindow { context, window } ==> {
                &&& !core.dry_run
                &&& context == Context::Backfill
                &&& budget_allows(next.core)
            }
        }),
{
    let next = entering_backfill(core, effects);
    if budget_allows(core) && !(core.floor is Absent) {
        match window_before(core.today, INCREMENTAL_DAYS as int) {
            None => {},
            Some(recent) => {
                if !(core.floor is Invalid) {
                    lemma_backfill(core, recent.from, effects);
                }
            },
        }
    }
    assert(next.effects.take(effects.len() as int) == effects);
}

/// In a dry run, entering backfill adds nothing but previews.
proof fn lemma_dry_entering_backfill(core: Core, effects: Seq<PlannedEffect>)
    requires
        core.dry_run,
    ensures
        forall|i: int|
            effects.len() <= i < entering_backfill(core, effects).effects.len() ==> (
            #[trigger] entering_backfill(core, effects).effects[i]) is Preview,
{
    if budget_allows(core) && !(core.floor is Absent) {
        match window_before(core.today, INCREMENTAL_DAYS as int) {
            None => {},
            Some(recent) => {
                if !(core.floor is Invalid) {
                    lemma_dry_backfill(core, recent.from, effects);
                }
            },
        }
    }
}

/// What holds of every decision of the scheduler.
proof fn lemma_planned(core: Core, signal: Signal)
    ensures
        ({
            let next = planned(core, signal);
            &&& next.core.max_api_calls == core.max_api_calls
            &&& next.core.dry_run == core.dry_run
            &&& next.core.today == core.today
            &&& next.core.floor == core.floor
            &&& core.wf() ==> next.core.wf()
            &&& next.request matches PlannedRequest::FetchWindow { context, window } ==> {
                &&& !core.dry_run
                &&& context == Context::Backfill ==> budget_allows(next.core)
            }
        }),
{
    match (core.phase, signal) {
        (Phase::Fresh, Signal::Begin) => {
            match window_before(core.today, INCREMENTAL_DAYS as int) {
                None => {},
                Some(window) => {
                    lemma_entering_backfill(
                        core,
                        seq![PlannedEffect::Preview { context: Context::Incremental, window }],
                    );
                },
            }
        },
        (Phase::Incremental { window }, Signal::Fetched(result)) => {
            match counted(core.progress, result) {
                None => {},
                Some(progress) => {
                    lemma_entering_backfill(
                        Core { progress, ..core },
                        seq![
                            PlannedEffect::LogCall {
                                context: Context::Incremental,
                                window,
                                result,
                            },
                        ],
                    );
                },
            }
        },
        (Phase::AwaitCursor, Signal::Cursor(Lookup::Found(cursor))) => {
            lemma_backfill(core, cursor, seq![]);
        },
        (Phase::AwaitEarliest, Signal::Earliest(Lookup::Found(cursor))) => {
            lemma_backfill(core, cursor, seq![]);
        },
        (Phase::AwaitEarliest, Signal::Earliest(Lookup::Missing)) => {
            match window_before(core.today, INCREMENTAL_DAYS as int) {
                None => {},
                Some(recent) => {
                    lemma_backfill(core, recent.from, seq![]);
                },
            }
        },
        (Phase::Backfill { window }, Signal::Fetched(result)) => {
            match counted(core.progress, result) {
                None => {},
                Some(progress) => {
                    lemma_backfill(
                        Core { progress, ..core },
                        window.from,
                        seq![
                            PlannedEffect::LogCall { context: Context::Backfill, window, result },
                        ].push(PlannedEffect::SaveCursor(window.from)),
                    );
                },
            }
        },
        _ => {},
    }
}

impl SyncError {
    /// The message of this failure as it is shown to an operator.
    pub open spec fn message_text(self) -> Seq<char> {
        match self {
            SyncError::InvalidDate { input } => "Failed to parse date '"@ + input@ + "'"@,
            SyncError::DateOutOfRange => "A sync window lies outside the calendar"@,
            SyncError::CounterOverflow => "A sync counter overflowed"@,
            SyncError::UnexpectedEvent => "The scheduler was told what it had not asked for"@,
            SyncError::Fetch(failure) => failure.message_text(),
            SyncError::Store { message } => message@,
        }
    }

    /// The message of this failure as it is shown to an operator.
    pub fn message(&self) -> (text: String)
        ensures
            text@ == self.message_text(),
    {
        match self {
            SyncError::InvalidDate { input } => {
                let mut text = String::from_str("Failed to parse date '");
                text.append(input.as_str());
                text.append("'");
                text
            },
            SyncError::DateOutOfRange => String::from_str(
                "A sync window lies outside the calendar",
            ),
            SyncError::CounterOverflow => String::from_str("A sync counter overflowed"),
            SyncError::UnexpectedEvent => String::from_str(
                "The scheduler was told what it had not asked for",
            ),
            SyncError::Fetch(failure) => failure.message(),
            SyncError::Store { message } => message.clone(),
        }
    }
}

/// The lines of the summary of a run, as they are shown to an operator: an
/// empty line, the heading, the three counts, the backfill cursor where the
/// store holds one, and whether the run was rate-limited.
pub open spec fn summary_text(
    api_calls_used: u32,
    records_synced: usize,
    windows_completed: u32,
    rate_limited: bool,
    backfill_cursor: Option<Seq<char>>,
) -> Seq<Seq<char>> {
    seq![
        Seq::empty(),
        "=== Sync Summary ==="@,
        "  API calls used:     "@ + decimal(api_calls_used as nat),
        "  Records synced:     "@ + decimal(records_synced as nat),
        "  Windows completed:  "@ + decimal(windows_completed as nat),
    ] + (match backfill_cursor {
        Some(cursor) => seq!["  Backfill cursor:    "@ + cursor],
        None => seq![],
    }) + seq![
        if rate_limited {
            "  Status:             Rate limited (will resume next run)"@
        } else {
            "  Status:             Complete"@
        },
    ]
}

fn counted_line(label: &str, count: u64) -> (line: String)
    ensures
        line@ == label@ + decimal(count as nat),
{
    let mut line = String::from_str(label);
    push_decimal(&mut line, count);
    line
}

/// The lines of the summary of a run. See [`summary_text`].
pub fn summary_lines(summary: &SyncSummary) -> (lines: Vec<String>)
    ensures
        crate::text::texts(lines@) == summary_text(
            summary.api_calls_used,
            summary.records_synced,
            summary.windows_completed,
            summary.rate_limited,
            opt_text(summary.backfill_cursor),
        ),
{
    let mut lines: Vec<String> = Vec::new();
    lines.push(String::new());
    lines.push(String::from_str("=== Sync Summary ==="));
    lines.push(counted_line("  API calls used:     ", summary.api_calls_used as u64));
    lines.push(counted_line("  Records synced:     ", summary.records_synced as u64));
    lines.push(counted_line("  Windows completed:  ", summary.windows_completed as u64));
    if let Some(cursor) = &summary.backfill_cursor {
        let mut line = String::from_str("  Backfill cursor:    ");
        line.append(cursor.as_str());
        lines.push(line);
    }
    if summary.rate_limited {
        lines.push(String::from_str("  Status:             Rate limited (will resume next run)"));
    } else {
        lines.push(String::from_str("  Status:             Complete"));
    }
    proof {
        assert(crate::text::texts(lines@) =~= summary_text(
            summary.api_calls_used,
            summary.records_synced,
            summary.windows_completed,
            summary.rate_limited,
            opt_text(summary.backfill_cursor),
        ));
    }
    lines
}

} // verus!
