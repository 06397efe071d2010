use chrono::{Datelike, NaiveDate};
use govscout::api::{FetchError, WindowResult};
use govscout::dates::{parse_date, Date, DATE_FMT};
use govscout::db::Database;
use govscout::sync::{
    summary_lines, Context, Core, Effect, Event, Fault, Floor, Lookup, Phase, PlannedEffect,
    PlannedRequest, Request, Scheduler, Signal, StateKey, Step, Stored, SyncError, SyncSummary,
    Window, BACKFILL_WINDOW_DAYS, INCREMENTAL_DAYS,
};

fn day(year: i32, month: u32, d: u32) -> Date {
    Date { days: NaiveDate::from_ymd_opt(year, month, d).unwrap().num_days_from_ce() }
}

fn fetched(records_fetched: usize, api_calls: u32, rate_limited: bool) -> Event {
    Event::Fetched(WindowResult { records_fetched, api_calls, rate_limited })
}

fn stored(text: Option<&str>) -> Stored {
    Stored::read(text.map(|t| t.to_string()))
}

fn window_of(request: &Request) -> (Context, String, String) {
    match request {
        Request::FetchWindow { context, from, to } => (*context, from.clone(), to.clone()),
        other => panic!("no window is asked for: {:?}", other),
    }
}

fn summary_of(step: Step) -> SyncSummary {
    match step.request {
        Request::Finish(summary) => summary,
        other => panic!("the run is not over: {:?}", other),
    }
}

fn saved(effect: &Effect) -> Option<(StateKey, String)> {
    match effect {
        Effect::SaveState { key, value } => Some((*key, value.clone())),
        _ => None,
    }
}

#[test]
fn test_parse_date_valid() {
    let d = parse_date("01/15/2025").unwrap();
    assert_eq!(d.days, NaiveDate::from_ymd_opt(2025, 1, 15).unwrap().num_days_from_ce());
}

#[test]
fn test_parse_date_various_formats() {
    assert!(parse_date("12/31/2024").is_ok());
    assert!(parse_date("02/28/2025").is_ok());
}

#[test]
fn test_parse_date_invalid() {
    assert!(parse_date("2025-01-15").is_err());
    assert!(parse_date("not-a-date").is_err());
    assert!(parse_date("").is_err());
    assert!(parse_date("13/01/2025").is_err());
}

#[test]
fn test_sync_summary_defaults() {
    let summary = SyncSummary {
        api_calls_used: 0,
        records_synced: 0,
        windows_completed: 0,
        rate_limited: false,
        backfill_cursor: None,
    };
    assert_eq!(summary.api_calls_used, 0);
    assert!(!summary.rate_limited);
    assert!(summary.backfill_cursor.is_none());
}

#[test]
fn test_sync_summary_with_cursor() {
    let summary = SyncSummary {
        api_calls_used: 5,
        records_synced: 1200,
        windows_completed: 3,
        rate_limited: true,
        backfill_cursor: Some("06/15/2023".to_string()),
    };
    assert_eq!(summary.api_calls_used, 5);
    assert_eq!(summary.records_synced, 1200);
    assert!(summary.rate_limited);
    assert_eq!(summary.backfill_cursor.as_deref(), Some("06/15/2023"));
}

#[test]
fn test_constants() {
    assert_eq!(BACKFILL_WINDOW_DAYS, 90);
    assert_eq!(INCREMENTAL_DAYS, 3);
    assert_eq!(DATE_FMT, "%m/%d/%Y");
}

#[test]
fn incremental_window_covers_the_last_three_days() {
    let mut scheduler = Scheduler::new(18, false, None, day(2025, 1, 15));
    let step = scheduler.step(Event::Begin);
    assert!(step.effects.is_empty());
    assert_eq!(
        window_of(&step.request),
        (Context::Incremental, "01/12/2025".to_string(), "01/15/2025".to_string())
    );
    assert_eq!(
        scheduler.core.phase,
        Phase::Incremental { window: Window { from: day(2025, 1, 12), to: day(2025, 1, 15) } }
    );
}

#[test]
fn rate_limited_incremental_phase_ends_the_run() {
    let mut scheduler = Scheduler::new(18, false, None, day(2025, 1, 15));
    scheduler.step(Event::Begin);
    let step = scheduler.step(fetched(120, 1, true));
    assert_eq!(step.effects.len(), 2);
    match &step.effects[0] {
        Effect::LogCall { context, from, to, result } => {
            assert_eq!(*context, Context::Incremental);
            assert_eq!(from, "01/12/2025");
            assert_eq!(to, "01/15/2025");
            assert_eq!(
                *result,
                WindowResult { records_fetched: 120, api_calls: 1, rate_limited: true }
            );
        }
        other => panic!("the call is not logged first: {:?}", other),
    }
    assert_eq!(saved(&step.effects[1]), Some((StateKey::LastSync, "01/15/2025".to_string())));
    assert!(matches!(step.request, Request::LoadCursor));
    let summary = summary_of(scheduler.step(Event::Cursor(stored(None))));
    assert!(summary.rate_limited);
    assert_eq!(summary.windows_completed, 1);
    assert_eq!(summary.api_calls_used, 1);
    assert_eq!(summary.records_synced, 120);
    assert_eq!(summary.backfill_cursor, None);
    assert_eq!(scheduler.core.phase, Phase::Over);
}

#[test]
fn backfill_seeds_its_cursor_from_the_earliest_stored_date() {
    let mut scheduler = Scheduler::new(10, false, None, day(2025, 1, 15));
    scheduler.step(Event::Begin);
    let step = scheduler.step(fetched(40, 1, false));
    assert_eq!(step.effects.len(), 1);
    assert!(matches!(step.request, Request::LoadCursor));
    let step = scheduler.step(Event::Cursor(stored(None)));
    assert!(step.effects.is_empty());
    assert!(matches!(step.request, Request::LoadEarliest));
    let mut step = scheduler.step(Event::Earliest(stored(Some("06/01/2024"))));
    assert!(step.effects.is_empty());
    let expected = [
        ("03/03/2024", "06/01/2024"),
        ("12/04/2023", "03/03/2024"),
        ("09/05/2023", "12/04/2023"),
        ("06/07/2023", "09/05/2023"),
        ("03/09/2023", "06/07/2023"),
        ("12/09/2022", "03/09/2023"),
        ("09/10/2022", "12/09/2022"),
        ("06/12/2022", "09/10/2022"),
    ];
    for (from, to) in expected {
        assert_eq!(
            window_of(&step.request),
            (Context::Backfill, from.to_string(), to.to_string())
        );
        step = scheduler.step(fetched(1000, 1, false));
        assert!(matches!(&step.effects[0], Effect::LogCall { context: Context::Backfill, .. }));
        assert_eq!(
            saved(&step.effects[1]),
            Some((StateKey::BackfillCursor, from.to_string()))
        );
    }
    // Nine calls are used; a tenth would leave less than two.
    assert_eq!(step.effects.len(), 3);
    assert_eq!(saved(&step.effects[2]), Some((StateKey::LastSync, "01/15/2025".to_string())));
    assert!(matches!(step.request, Request::LoadCursor));
    let summary = summary_of(scheduler.step(Event::Cursor(stored(Some("06/12/2022")))));
    assert_eq!(summary.api_calls_used, 9);
    assert_eq!(summary.records_synced, 8040);
    assert_eq!(summary.windows_completed, 9);
    assert!(!summary.rate_limited);
    assert_eq!(summary.backfill_cursor.as_deref(), Some("06/12/2022"));
}

#[test]
fn dry_run_fetches_nothing_and_shows_the_plan() {
    let mut scheduler = Scheduler::new(5, true, None, day(2025, 1, 15));
    let step = scheduler.step(Event::Begin);
    assert_eq!(step.effects.len(), 1);
    match &step.effects[0] {
        Effect::Preview { context, from, to } => {
            assert_eq!(*context, Context::Incremental);
            assert_eq!(from, "01/12/2025");
            assert_eq!(to, "01/15/2025");
        }
        other => panic!("not a preview: {:?}", other),
    }
    assert!(matches!(step.request, Request::LoadCursor));
    let step = scheduler.step(Event::Cursor(stored(Some("06/15/2023"))));
    let previews: Vec<(String, String)> = step
        .effects
        .iter()
        .map(|effect| match effect {
            Effect::Preview { context: Context::Backfill, from, to } => {
                (from.clone(), to.clone())
            }
            other => panic!("a dry run hands out something to do: {:?}", other),
        })
        .collect();
    assert_eq!(
        previews,
        vec![
            ("03/17/2023".to_string(), "06/15/2023".to_string()),
            ("12/17/2022".to_string(), "03/17/2023".to_string()),
            ("09/18/2022".to_string(), "12/17/2022".to_string()),
            ("06/20/2022".to_string(), "09/18/2022".to_string()),
        ]
    );
    assert!(matches!(step.request, Request::LoadCursor));
    let summary = summary_of(scheduler.step(Event::Cursor(stored(Some("06/15/2023")))));
    assert_eq!(summary.api_calls_used, 4);
    assert_eq!(summary.windows_completed, 4);
    assert_eq!(summary.records_synced, 0);
    assert!(!summary.rate_limited);
    assert_eq!(summary.backfill_cursor.as_deref(), Some("06/15/2023"));
}

#[test]
fn interrupted_backfill_resumes_with_the_next_window() {
    let mut db = Database::open_in_memory();
    let mut first = Scheduler::new(18, false, None, day(2025, 1, 15));
    first.step(Event::Begin);
    first.step(fetched(3, 1, false));
    let mut step = first.step(Event::Cursor(stored(Some("01/01/2024"))));
    let mut windows = vec![window_of(&step.request)];
    for _ in 0..3 {
        step = first.step(fetched(10, 1, false));
        for effect in &step.effects {
            if let Some((key, value)) = saved(effect) {
                db.set_sync_state(key.name(), &value);
            }
        }
        windows.push(window_of(&step.request));
    }
    // The run dies here, with the fourth window asked for and not fetched.
    let awaited = windows.pop().unwrap();
    assert_eq!(db.get_sync_state("backfill_cursor"), Some(awaited.2.clone()));

    let mut second = Scheduler::new(18, false, None, day(2025, 1, 16));
    second.step(Event::Begin);
    second.step(fetched(0, 1, false));
    let step = second.step(Event::Cursor(Stored::read(db.get_sync_state("backfill_cursor"))));
    assert_eq!(window_of(&step.request), awaited);
    assert!(windows.iter().all(|w| *w != awaited));
}

#[test]
fn backfill_cursor_moves_back_ninety_days_each_window() {
    let mut scheduler = Scheduler::new(100, false, None, day(2025, 1, 15));
    scheduler.step(Event::Begin);
    scheduler.step(fetched(3, 1, false));
    let mut step = scheduler.step(Event::Cursor(stored(Some("01/01/2024"))));
    let mut cursor = parse_date("01/01/2024").unwrap();
    for _ in 0..20 {
        let (_, from, to) = window_of(&step.request);
        assert_eq!(parse_date(&to).unwrap(), cursor);
        assert_eq!(parse_date(&from).unwrap().days, cursor.days - 90);
        step = scheduler.step(fetched(5, 2, false));
        cursor = Date { days: cursor.days - 90 };
        assert_eq!(
            saved(&step.effects[1]),
            Some((StateKey::BackfillCursor, cursor.format().unwrap()))
        );
    }
}

#[test]
fn backfill_needs_two_calls_left() {
    let mut scheduler = Scheduler::new(3, false, None, day(2025, 1, 15));
    scheduler.step(Event::Begin);
    let step = scheduler.step(fetched(2500, 2, false));
    // One call is left: the run closes without asking for the cursor to start from.
    assert_eq!(step.effects.len(), 2);
    assert_eq!(saved(&step.effects[1]), Some((StateKey::LastSync, "01/15/2025".to_string())));
    assert_eq!(scheduler.core.phase, Phase::Closing);
    let summary = summary_of(scheduler.step(Event::Cursor(stored(None))));
    assert_eq!(summary.api_calls_used, 2);
    assert_eq!(summary.windows_completed, 1);
}

#[test]
fn rate_limited_backfill_window_saves_its_cursor_and_stops() {
    let mut scheduler = Scheduler::new(18, false, None, day(2025, 1, 15));
    scheduler.step(Event::Begin);
    scheduler.step(fetched(3, 1, false));
    scheduler.step(Event::Cursor(stored(Some("01/01/2024"))));
    let step = scheduler.step(fetched(2000, 3, true));
    assert_eq!(step.effects.len(), 3);
    assert_eq!(
        saved(&step.effects[1]),
        Some((StateKey::BackfillCursor, "10/03/2023".to_string()))
    );
    assert_eq!(saved(&step.effects[2]), Some((StateKey::LastSync, "01/15/2025".to_string())));
    assert!(matches!(step.request, Request::LoadCursor));
    let summary = summary_of(scheduler.step(Event::Cursor(stored(Some("10/03/2023")))));
    assert!(summary.rate_limited);
    assert_eq!(summary.api_calls_used, 4);
    assert_eq!(summary.records_synced, 2003);
    assert_eq!(summary.windows_completed, 2);
}

#[test]
fn floor_starts_backfill_after_the_incremental_window_and_stops_it() {
    let mut scheduler = Scheduler::new(18, false, Some("12/01/2024"), day(2025, 1, 15));
    assert_eq!(scheduler.core.floor, Floor::At(day(2024, 12, 1)));
    scheduler.step(Event::Begin);
    let step = scheduler.step(fetched(3, 1, false));
    assert_eq!(
        window_of(&step.request),
        (Context::Backfill, "10/14/2024".to_string(), "01/12/2025".to_string())
    );
    let step = scheduler.step(fetched(7, 1, false));
    // The cursor has passed the floor.
    assert!(matches!(step.request, Request::LoadCursor));
    assert_eq!(scheduler.core.phase, Phase::Closing);
    let summary = summary_of(scheduler.step(Event::Cursor(stored(Some("10/14/2024")))));
    assert_eq!(summary.windows_completed, 2);
}

#[test]
fn floor_that_is_no_date_fails_when_backfill_begins() {
    let mut scheduler = Scheduler::new(18, false, Some("2024-12-01"), day(2025, 1, 15));
    assert_eq!(scheduler.core.floor, Floor::Invalid);
    let step = scheduler.step(Event::Begin);
    assert!(matches!(step.request, Request::FetchWindow { .. }));
    let step = scheduler.step(fetched(3, 1, false));
    assert_eq!(step.effects.len(), 1);
    match step.request {
        Request::Fail(SyncError::InvalidDate { input }) => assert_eq!(input, "2024-12-01"),
        other => panic!("{:?}", other),
    }
    // With no budget for backfill the floor is never looked at.
    let mut scheduler = Scheduler::new(1, false, Some("2024-12-01"), day(2025, 1, 15));
    scheduler.step(Event::Begin);
    let step = scheduler.step(fetched(3, 1, false));
    assert!(matches!(step.request, Request::LoadCursor));
}

#[test]
fn stored_cursor_that_is_no_date_fails_the_run() {
    let mut scheduler = Scheduler::new(18, false, None, day(2025, 1, 15));
    scheduler.step(Event::Begin);
    scheduler.step(fetched(3, 1, false));
    let step = scheduler.step(Event::Cursor(stored(Some("yesterday"))));
    match step.request {
        Request::Fail(SyncError::InvalidDate { input }) => assert_eq!(input, "yesterday"),
        other => panic!("{:?}", other),
    }
    assert_eq!(scheduler.core.phase, Phase::Over);
}

#[test]
fn empty_store_backfills_from_the_incremental_window() {
    let mut scheduler = Scheduler::new(18, false, None, day(2025, 1, 15));
    scheduler.step(Event::Begin);
    scheduler.step(fetched(0, 1, false));
    scheduler.step(Event::Cursor(stored(None)));
    let step = scheduler.step(Event::Earliest(stored(None)));
    assert_eq!(
        window_of(&step.request),
        (Context::Backfill, "10/14/2024".to_string(), "01/12/2025".to_string())
    );
}

#[test]
fn unexpected_event_and_overflow_end_the_run() {
    let mut scheduler = Scheduler::new(18, false, None, day(2025, 1, 15));
    let step = scheduler.step(fetched(1, 1, false));
    assert!(matches!(step.request, Request::Fail(SyncError::UnexpectedEvent)));

    let mut core = Core::new(u32::MAX, false, Floor::Absent, day(2025, 1, 15));
    core.plan(Signal::Begin);
    core.plan(Signal::Fetched(WindowResult {
        records_fetched: 1,
        api_calls: u32::MAX - 2,
        rate_limited: false,
    }));
    core.plan(Signal::Cursor(Lookup::Found(day(2024, 1, 1))));
    let plan = core.plan(Signal::Fetched(WindowResult {
        records_fetched: 1,
        api_calls: 3,
        rate_limited: false,
    }));
    assert_eq!(plan.request, PlannedRequest::Fail(Fault::CounterOverflow));
    assert_eq!(plan.effects.len(), 1);
    assert!(matches!(plan.effects[0], PlannedEffect::LogCall { .. }));

    let mut scheduler = Scheduler::new(u32::MAX, false, None, day(2025, 1, 15));
    scheduler.step(Event::Begin);
    scheduler.step(fetched(usize::MAX, 1, false));
    scheduler.step(Event::Cursor(stored(Some("01/01/2024"))));
    let step = scheduler.step(fetched(1, 1, false));
    assert_eq!(step.effects.len(), 1);
    assert!(matches!(step.request, Request::Fail(SyncError::CounterOverflow)));
}

#[test]
fn window_outside_the_calendar_fails_the_run() {
    let mut core = Core::new(18, true, Floor::Absent, Date { days: i32::MIN + 2 });
    let plan = core.plan(Signal::Begin);
    assert_eq!(plan.request, PlannedRequest::Fail(Fault::DateOutOfRange));

    // The day number fits, the calendar has no such date.
    let mut scheduler = Scheduler::new(18, false, None, Date { days: i32::MAX });
    let step = scheduler.step(Event::Begin);
    assert!(step.effects.is_empty());
    assert!(matches!(step.request, Request::Fail(SyncError::DateOutOfRange)));
    assert_eq!(scheduler.core.phase, Phase::Over);
}

#[test]
fn summary_is_written_line_by_line() {
    let summary = SyncSummary {
        api_calls_used: 5,
        records_synced: 1200,
        windows_completed: 3,
        rate_limited: true,
        backfill_cursor: Some("06/15/2023".to_string()),
    };
    assert_eq!(
        summary_lines(&summary),
        vec![
            "",
            "=== Sync Summary ===",
            "  API calls used:     5",
            "  Records synced:     1200",
            "  Windows completed:  3",
            "  Backfill cursor:    06/15/2023",
            "  Status:             Rate limited (will resume next run)",
        ]
    );
    let summary = SyncSummary {
        api_calls_used: 0,
        records_synced: 0,
        windows_completed: 0,
        rate_limited: false,
        backfill_cursor: None,
    };
    assert_eq!(
        summary_lines(&summary),
        vec![
            "",
            "=== Sync Summary ===",
            "  API calls used:     0",
            "  Records synced:     0",
            "  Windows completed:  0",
            "  Status:             Complete",
        ]
    );
}

#[test]
fn sync_errors_have_their_messages() {
    assert_eq!(
        SyncError::InvalidDate { input: "2024-12-01".to_string() }.message(),
        "Failed to parse date '2024-12-01'"
    );
    assert!(!SyncError::DateOutOfRange.message().is_empty());
    assert!(!SyncError::CounterOverflow.message().is_empty());
    assert!(!SyncError::UnexpectedEvent.message().is_empty());
    assert_eq!(Context::Incremental.tag(), "incremental");
    assert_eq!(Context::Backfill.tag(), "backfill");
    assert_eq!(StateKey::BackfillCursor.name(), "backfill_cursor");
    assert_eq!(StateKey::LastSync.name(), "last_sync");
}

#[test]
fn failed_fetch_ends_the_run_and_writes_nothing() {
    let mut scheduler = Scheduler::new(18, false, None, day(2025, 1, 15));
    scheduler.step(Event::Begin);
    let step = scheduler.step(Event::FetchFailed(FetchError::Transport {
        detail: "timed out".to_string(),
    }));
    assert!(step.effects.is_empty());
    match &step.request {
        Request::Fail(error @ SyncError::Fetch(FetchError::Transport { detail })) => {
            assert_eq!(detail, "timed out");
            assert_eq!(error.message(), "Failed to connect to SAM.gov API: timed out");
        }
        other => panic!("{:?}", other),
    }
    assert_eq!(scheduler.core.phase, Phase::Over);
    // A run that is over stays over.
    let step = scheduler.step(Event::Cursor(stored(None)));
    assert!(step.effects.is_empty());
    assert!(matches!(step.request, Request::Fail(SyncError::UnexpectedEvent)));
}

#[test]
fn failed_store_ends_the_run() {
    let mut scheduler = Scheduler::new(18, false, None, day(2025, 1, 15));
    scheduler.step(Event::Begin);
    scheduler.step(fetched(3, 1, false));
    let step = scheduler.step(Event::StoreFailed { message: "database is locked".to_string() });
    assert!(step.effects.is_empty());
    match step.request {
        Request::Fail(error) => {
            assert_eq!(error.message(), "database is locked");
            assert!(matches!(error, SyncError::Store { .. }));
        }
        other => panic!("{:?}", other),
    }
    let mut core = Core::new(18, false, Floor::Absent, day(2025, 1, 15));
    let plan = core.plan(Signal::Failed);
    assert_eq!(plan.request, PlannedRequest::Fail(Fault::Aborted));
    assert!(plan.effects.is_empty());
}
