//! The course of a run, one step at a time.
//!
//! A run alternates work on the outside (saving the status, reading the
//! ledgers, fetching prices, clearing and writing the derived series) with
//! decisions. [`RunState::step`] takes what the outside work brought and
//! says what is to be done next; whoever drives the run performs the action
//! and comes back with the event.

use vstd::prelude::*;
use crate::background_processor::{
    compute_portfolio, computed, fx_tickers_needed, ledger_day, ledger_scope, lists, lookback_start,
    overflows, rate_needed, traded, window_start, PrecomputedData,
};
use crate::date::Date;
use crate::models::{CashFlowEvent, TradingRecord};
use crate::prices::{series_of, CurrencyConverter, FxRuleValue, PriceBook, PriceObservation};
use crate::valuation::distinct;

verus! {

/// The status of a run as it is stored.
#[derive(Clone, Copy, Debug, PartialEq, Eq, Structural)]
pub enum RunStatus {
    NotStarted,
    InProgress,
    Completed,
    Failed,
}

/// What a run is waiting for.
#[derive(Clone, Copy, Debug, PartialEq, Eq, Structural)]
pub enum Phase {
    /// Not begun.
    Idle,
    /// The status `InProgress` is being saved.
    Starting,
    /// The ledgers are being read.
    Loading,
    /// The prices of a traded ticker are being fetched.
    FetchingPrices,
    /// An exchange rate is being fetched.
    FetchingRates,
    /// The derived series are being cleared.
    Clearing,
    /// The derived series are being written.
    Writing,
    /// The status `Completed` is being saved.
    Completing,
    /// The status `Failed` is being saved.
    Failing,
    /// Over.
    Finished,
}

/// How a run ended.
#[derive(Clone, Copy, Debug, PartialEq, Eq, Structural)]
pub enum RunOutcome {
    /// The series were rewritten and the status says so.
    Completed,
    /// The ledger holds no trade: nothing was derived and the status was
    /// left as it stood, in progress.
    EmptyLedger,
    /// The run was given up.
    Failed,
}

/// What the outside work brought.
#[derive(Debug)]
pub enum RunEvent {
    /// The run is to begin, on the given day.
    Start { today: Date },
    /// The status was saved.
    StatusSaved,
    /// The ledgers were read.
    LedgersLoaded { trades: Vec<TradingRecord>, flows: Vec<CashFlowEvent> },
    /// The provider answered.
    PricesFetched { observations: Vec<PriceObservation> },
    /// The provider failed.
    FetchFailed,
    /// The derived series were cleared.
    SeriesCleared,
    /// The derived series were written.
    SeriesWritten,
    /// The store failed.
    StoreFailed { message: String },
}

/// What is to be done next.
#[derive(Debug)]
pub enum RunAction {
    /// Save the status, with the error that ended the run, if any.
    SaveStatus { status: RunStatus, error: Option<String> },
    /// Read the trades and the cash movements.
    LoadLedgers,
    /// Ask the provider for the prices of a ticker between two dates.
    FetchPrices { ticker: String, from: Date, to: Date },
    /// Remove every row of the derived series.
    ClearSeries,
    /// Write these derived series into the store that was cleared.
    WriteSeries { data: PrecomputedData },
    /// Nothing more.
    Stop { outcome: RunOutcome },
}

/// A run between two steps.
#[derive(Debug)]
pub struct RunState {
    pub phase: Phase,
    pub today: Option<Date>,
    pub trades: Vec<TradingRecord>,
    pub flows: Vec<CashFlowEvent>,
    pub tickers: Vec<String>,
    pub first_date: Option<Date>,
    /// The tickers that are being fetched, and how many of them are done.
    pub queue: Vec<String>,
    pub next: usize,
    pub book: PriceBook,
    pub converter: CurrencyConverter,
    /// What was derived and is to be written once the store is cleared.
    pub pending: Option<PrecomputedData>,
}

/// The message stored with a run that met an amount no decimal holds.
pub const OVERFLOW_MESSAGE: &'static str = "an amount exceeds the range of a decimal";

/// Whether the action asks for the prices of `ticker` over the window of
/// the run.
pub open spec fn asks_for(action: RunAction, ticker: Seq<char>, first: int, today: int) -> bool {
    &&& action is FetchPrices
    &&& action->ticker@ == ticker
    &&& action->to@ == today
    &&& action->from@ == window_start(first)
}

/// Whether the action saves a status without an error.
pub open spec fn saves(action: RunAction, status: RunStatus) -> bool {
    action is SaveStatus && action->status == status && action->error is None
}

/// Whether the action ends the run with an outcome.
pub open spec fn stops(action: RunAction, outcome: RunOutcome) -> bool {
    action is Stop && action->outcome == outcome
}

/// Whether the action marks the run as failed with the message.
pub open spec fn marks_failed_with(action: RunAction, message: String) -> bool {
    marks_failed(action) && action->error == Some(message)
}

/// Whether the action saves the status `Failed` with a message.
pub open spec fn marks_failed(action: RunAction) -> bool {
    action is SaveStatus && action->status == RunStatus::Failed && action->error is Some
}

/// Whether two books hold the same series.
pub open spec fn same_series(a: &PriceBook, b: &PriceBook) -> bool {
    forall|ticker: Seq<char>| a.series(ticker) == b.series(ticker)
}

/// Whether a step valued the portfolio from the ledgers it had and the
/// prices in `book`, over the dates from a week before the first ledger date
/// to `today`: either the store is to be cleared and what the ledgers and
/// the prices give waits to be written, or an amount overflowed and the run
/// is to be marked as failed.
pub open spec fn valued(
    trades: Seq<TradingRecord>,
    flows: Seq<CashFlowEvent>,
    tickers: Seq<String>,
    first: int,
    today: int,
    book: &PriceBook,
    converter: &CurrencyConverter,
    phase: Phase,
    pending: Option<PrecomputedData>,
    action: RunAction,
) -> bool {
    ||| phase == Phase::Clearing && action is ClearSeries && pending is Some && computed(
        pending->0,
        trades,
        flows,
        tickers,
        window_start(first),
        today,
        book,
        converter,
    )
    ||| phase == Phase::Failing && marks_failed(action) && overflows(
        trades,
        flows,
        tickers,
        window_start(first),
        today,
        book,
        converter,
    )
}

/// Whether the state is that of a run that waits for a ticker's prices.
pub open spec fn fetching(state: RunState) -> bool {
    &&& state.phase == Phase::FetchingPrices || state.phase == Phase::FetchingRates
    &&& state.today is Some
    &&& state.first_date is Some
    &&& state.next < state.queue.len()
}

/// Whether the event is one that the phase of the state waits for.
pub open spec fn awaited(state: RunState, event: RunEvent) -> bool {
    match state.phase {
        Phase::Idle => event is Start,
        Phase::Starting => event is StatusSaved || event is StoreFailed,
        Phase::Loading => (event is LedgersLoaded && state.today is Some) || event is StoreFailed,
        Phase::FetchingPrices | Phase::FetchingRates => ((event is PricesFetched || event
            is FetchFailed) && fetching(state)) || event is StoreFailed,
        Phase::Clearing => (event is SeriesCleared && state.pending is Some) || event
            is StoreFailed,
        Phase::Writing => event is SeriesWritten || event is StoreFailed,
        Phase::Completing => event is StatusSaved || event is StoreFailed,
        Phase::Failing => false,
        Phase::Finished => false,
    }
}

/// Whether the tickers and the first date are those of the ledgers.
pub open spec fn scoped(
    tickers: Seq<String>,
    first: int,
    trades: Seq<TradingRecord>,
    flows: Seq<CashFlowEvent>,
) -> bool {
    &&& distinct(tickers)
    &&& forall|k: int| 0 <= k < tickers.len() ==> traded(trades, (#[trigger] tickers[k])@)
    &&& forall|ticker: Seq<char>| traded(trades, ticker) ==> lists(tickers, ticker)
    &&& ledger_day(trades, flows, first)
    &&& forall|day: int| ledger_day(trades, flows, day) ==> first <= day
}

/// Whether the rates are those that have yet to be fetched.
pub open spec fn rates_queued(
    queue: Seq<String>,
    book: &PriceBook,
    converter: &CurrencyConverter,
    tickers: Seq<String>,
) -> bool {
    &&& distinct(queue)
    &&& forall|k: int| 0 <= k < queue.len() ==> rate_needed(book, converter, tickers, (#[trigger] queue[k])@)
    &&& forall|fx: Seq<char>| rate_needed(book, converter, tickers, fx) ==> lists(queue, fx)
}

/// Whether the step from `before` that took what was fetched into `book`
/// went on as it should: to the next ticker of the queue, else to the
/// exchange rates that are needed, else to the valuation.
pub open spec fn went_on(before: RunState, after: RunState, action: RunAction) -> bool {
    let first = before.first_date->0@;
    let today = before.today->0@;
    if before.next + 1 < before.queue.len() {
        &&& after.phase == before.phase
        &&& after.queue@ == before.queue@
        &&& after.next == before.next + 1
        &&& after.trades@ == before.trades@
        &&& after.flows@ == before.flows@
        &&& after.tickers@ == before.tickers@
        &&& after.today == before.today
        &&& after.first_date == before.first_date
        &&& asks_for(action, before.queue[before.next + 1]@, first, today)
    } else if before.phase == Phase::FetchingPrices && exists|fx: Seq<char>|
        rate_needed(&after.book, &after.converter, before.tickers@, fx) {
        &&& after.phase == Phase::FetchingRates
        &&& rates_queued(after.queue@, &after.book, &after.converter, before.tickers@)
        &&& after.queue.len() > 0
        &&& after.next == 0
        &&& after.trades@ == before.trades@
        &&& after.flows@ == before.flows@
        &&& after.tickers@ == before.tickers@
        &&& after.today == before.today
        &&& after.first_date == before.first_date
        &&& asks_for(action, after.queue[0]@, first, today)
    } else {
        valued(
            before.trades@,
            before.flows@,
            before.tickers@,
            first,
            today,
            &after.book,
            &after.converter,
            after.phase,
            after.pending,
            action,
        )
    }
}

/// The request for the prices of a ticker over the window of the run.
fn fetch(ticker: &String, first_date: Date, today: Date) -> (r: RunAction)
    ensures
        asks_for(r, ticker@, first_date@, today@),
{
    RunAction::FetchPrices { ticker: ticker.clone(), from: lookback_start(first_date), to: today }
}

/// The action that marks the run as failed.
fn fail(message: String) -> (r: RunAction)
    ensures
        marks_failed_with(r, message),
{
    RunAction::SaveStatus { status: RunStatus::Failed, error: Some(message) }
}

impl RunState {
    /// A run that has not begun: nothing is loaded, no price is known, and
    /// amounts will be converted by the two rules of the library, dollars
    /// divided by the rate `GBPUSD=X` and euros multiplied by `EURGBP=X`.
    pub fn new() -> (r: RunState)
        ensures
            r.phase == Phase::Idle,
            r.today is None,
            r.first_date is None,
            r.trades.len() == 0,
            r.flows.len() == 0,
            r.tickers.len() == 0,
            r.queue.len() == 0,
            r.next == 0,
            forall|ticker: Seq<char>| !r.book.has(ticker),
            r.pending is None,
            r.converter.rule("USD"@) == Some(FxRuleValue { fx_ticker: "GBPUSD=X"@, multiply: false }),
            r.converter.rule("EUR"@) == Some(FxRuleValue { fx_ticker: "EURGBP=X"@, multiply: true }),
            forall|currency: Seq<char>|
                currency != "USD"@ && currency != "EUR"@ ==> r.converter.rule(currency) is None,
    {
        RunState {
            phase: Phase::Idle,
            today: None,
            trades: Vec::new(),
            flows: Vec::new(),
            tickers: Vec::new(),
            first_date: None,
            queue: Vec::new(),
            next: 0,
            book: PriceBook::new(),
            converter: CurrencyConverter::new(),
            pending: None,
        }
    }

    /// Values the portfolio and says whether the store is to be cleared for
    /// what was derived or the run is to be marked as failed.
    fn value(self, first_date: Date, today: Date) -> (r: (RunState, RunAction))
        ensures
            same_series(&r.0.book, &self.book),
            r.0.converter == self.converter,
            r.0.tickers@ == self.tickers@,
            r.0.flows@ == self.flows@,
            r.0.first_date == Some(first_date),
            r.0.today == Some(today),
            valued(
                self.trades@,
                self.flows@,
                self.tickers@,
                first_date@,
                today@,
                &r.0.book,
                &r.0.converter,
                r.0.phase,
                r.0.pending,
                r.1,
            ),
    {
        let RunState { phase: _, today: _, trades, flows, tickers, first_date: _, queue: _, next: _, book, converter, pending: _ } =
            self;
        let start = lookback_start(first_date);
        let result = compute_portfolio(trades, &flows, &tickers, start, today, &book, &converter);
        let (phase, action, pending) = match result {
            Ok(data) => (Phase::Clearing, RunAction::ClearSeries, Some(data)),
            Err(_) => (Phase::Failing, fail(OVERFLOW_MESSAGE.to_owned()), None),
        };
        (
            RunState {
                phase,
                today: Some(today),
                trades: Vec::new(),
                flows,
                tickers,
                first_date: Some(first_date),
                queue: Vec::new(),
                next: 0,
                book,
                converter,
                pending,
            },
            action,
        )
    }

    /// Goes on after a ticker of the queue is done.
    fn go_on(self) -> (r: (RunState, RunAction))
        requires
            fetching(self),
        ensures
            same_series(&r.0.book, &self.book),
            r.0.converter == self.converter,
            went_on(self, r.0, r.1),
    {
        let first_date = match self.first_date {
            Some(d) => d,
            None => {
                return (self, RunAction::Stop { outcome: RunOutcome::Failed });
            },
        };
        let today = match self.today {
            Some(d) => d,
            None => {
                return (self, RunAction::Stop { outcome: RunOutcome::Failed });
            },
        };
        if self.next + 1 < self.queue.len() {
            let action = fetch(&self.queue[self.next + 1], first_date, today);
            let RunState { phase, today: t, trades, flows, tickers, first_date: f, queue, next, book, converter, pending } =
                self;
            return (
                RunState {
                    phase,
                    today: t,
                    trades,
                    flows,
                    tickers,
                    first_date: f,
                    queue,
                    next: next + 1,
                    book,
                    converter,
                    pending,
                },
                action,
            );
        }
        if self.phase == Phase::FetchingPrices {
            let rates = fx_tickers_needed(&self.book, &self.converter, &self.tickers);
            if rates.len() > 0 {
                proof {
                    assert(rate_needed(&self.book, &self.converter, self.tickers@, rates[0]@));
                }
                let action = fetch(&rates[0], first_date, today);
                let RunState { phase: _, today: t, trades, flows, tickers, first_date: f, queue: _, next: _, book, converter, pending: _ } =
                    self;
                return (
                    RunState {
                        phase: Phase::FetchingRates,
                        today: t,
                        trades,
                        flows,
                        tickers,
                        first_date: f,
                        queue: rates,
                        next: 0,
                        book,
                        converter,
                        pending: None,
                    },
                    action,
                );
            }
            proof {
                assert forall|fx: Seq<char>| !rate_needed(
                    &self.book,
                    &self.converter,
                    self.tickers@,
                    fx,
                ) by {
                    if rate_needed(&self.book, &self.converter, self.tickers@, fx) {
                        assert(lists(rates@, fx));
                    }
                }
            }
        }
        let ghost before = self;
        let r = self.value(first_date, today);
        proof {
            lemma_need_follows_series(&r.0.book, &before.book, &r.0.converter, before.tickers@);
        }
        r
    }

    /// Takes what the outside work brought and says what is to be done next.
    ///
    /// A run begins by saving the status `InProgress` and reading the
    /// ledgers. A ledger without trades ends the run at once and leaves the
    /// status as it stands. Else the prices of every traded ticker are
    /// fetched, then the exchange rates that the currencies of these prices
    /// call for; a fetch that fails leaves the ticker without prices and
    /// the run goes on. Then the portfolio is valued, the derived series are
    /// cleared, and only when they are cleared what was derived is handed
    /// out to be written; then the status `Completed` is saved. A failure of the store
    /// and an amount that overflows end the run with the status `Failed`.
    /// An event that does not belong to the phase ends the run.
    pub fn step(self, event: RunEvent) -> (r: (RunState, RunAction))
        ensures
            self.phase == Phase::Idle && event is Start ==> r.0.phase == Phase::Starting && r.0.today
                == Some(event->today) && saves(r.1, RunStatus::InProgress) && same_series(
                &r.0.book,
                &self.book,
            ),
            self.phase == Phase::Starting && event is StatusSaved ==> r.0.phase == Phase::Loading
                && r.0.today == self.today && r.1 is LoadLedgers && same_series(&r.0.book, &self.book),
            (self.phase == Phase::Starting || self.phase == Phase::Loading || self.phase
                == Phase::FetchingPrices || self.phase == Phase::FetchingRates || self.phase
                == Phase::Clearing || self.phase == Phase::Writing || self.phase
                == Phase::Completing) && event is StoreFailed
                ==> r.0.phase == Phase::Failing && marks_failed_with(r.1, event->message),
            self.phase == Phase::Loading && self.today is Some && event is LedgersLoaded ==> if event->trades.len()
                == 0 {
                r.0.phase == Phase::Finished && stops(r.1, RunOutcome::EmptyLedger)
            } else {
                &&& same_series(&r.0.book, &self.book)
                &&& r.0.first_date is Some
                &&& scoped(r.0.tickers@, r.0.first_date->0@, event->trades@, event->flows@)
                &&& if r.0.tickers.len() > 0 {
                    &&& r.0.phase == Phase::FetchingPrices
                    &&& r.0.trades@ == event->trades@
                    &&& r.0.flows@ == event->flows@
                    &&& r.0.queue@ == r.0.tickers@
                    &&& r.0.next == 0
                    &&& r.0.today == self.today
                    &&& asks_for(r.1, r.0.tickers[0]@, r.0.first_date->0@, self.today->0@)
                } else {
                    valued(
                        event->trades@,
                        event->flows@,
                        r.0.tickers@,
                        r.0.first_date->0@,
                        self.today->0@,
                        &r.0.book,
                        &r.0.converter,
                        r.0.phase,
                        r.0.pending,
                        r.1,
                    )
                }
            },
            fetching(self) && event is PricesFetched ==> {
                &&& r.0.book.series(self.queue[self.next as int]@) == Some(
                    series_of(event->observations@),
                )
                &&& forall|other: Seq<char>|
                    other != self.queue[self.next as int]@ ==> r.0.book.series(other)
                        == self.book.series(other)
                &&& went_on(self, r.0, r.1)
            },
            fetching(self) && event is FetchFailed ==> same_series(&r.0.book, &self.book) && went_on(
                self,
                r.0,
                r.1,
            ),
            self.phase == Phase::Clearing && self.pending is Some && event is SeriesCleared ==> r.0.phase
                == Phase::Writing && r.0.pending is None && r.1 is WriteSeries && r.1->data
                == self.pending->0,
            self.phase == Phase::Writing && event is SeriesWritten ==> r.0.phase == Phase::Completing
                && saves(r.1, RunStatus::Completed),
            self.phase == Phase::Completing && event is StatusSaved ==> r.0.phase == Phase::Finished
                && stops(r.1, RunOutcome::Completed),
            !awaited(self, event) ==> r.0.phase == Phase::Finished && stops(r.1, RunOutcome::Failed),
            r.0.converter == self.converter,
    {
        match self.phase {
            Phase::Idle => match event {
                RunEvent::Start { today } => {
                    let RunState { phase: _, today: _, trades, flows, tickers, first_date, queue, next, book, converter, pending } =
                        self;
                    (
                        RunState {
                            phase: Phase::Starting,
                            today: Some(today),
                            trades,
                            flows,
                            tickers,
                            first_date,
                            queue,
                            next,
                            book,
                            converter,
                            pending,
                        },
                        RunAction::SaveStatus { status: RunStatus::InProgress, error: None },
                    )
                },
                _ => self.end(RunOutcome::Failed),
            },
            Phase::Starting => match event {
                RunEvent::StatusSaved => {
                    let RunState { phase: _, today, trades, flows, tickers, first_date, queue, next, book, converter, pending } =
                        self;
                    (
                        RunState {
                            phase: Phase::Loading,
                            today,
                            trades,
                            flows,
                            tickers,
                            first_date,
                            queue,
                            next,
                            book,
                            converter,
                            pending,
                        },
                        RunAction::LoadLedgers,
                    )
                },
                RunEvent::StoreFailed { message } => self.give_up(message),
                _ => self.end(RunOutcome::Failed),
            },
            Phase::Loading => match event {
                RunEvent::LedgersLoaded { trades, flows } => {
                    let today = match self.today {
                        Some(d) => d,
                        None => {
                            return self.end(RunOutcome::Failed);
                        },
                    };
                    let scope = match ledger_scope(&trades, &flows) {
                        Some(s) => s,
                        None => {
                            return self.end(RunOutcome::EmptyLedger);
                        },
                    };
                    let first_date = scope.first_date;
                    let tickers = scope.tickers;
                    let RunState { phase: _, today: _, trades: _, flows: _, tickers: _, first_date: _, queue: _, next: _, book, converter, pending: _ } =
                        self;
                    if tickers.len() > 0 {
                        let action = fetch(&tickers[0], first_date, today);
                        let queue = copy_names(&tickers);
                        (
                            RunState {
                                phase: Phase::FetchingPrices,
                                today: Some(today),
                                trades,
                                flows,
                                tickers,
                                first_date: Some(first_date),
                                queue,
                                next: 0,
                                book,
                                converter,
                                pending: None,
                            },
                            action,
                        )
                    } else {
                        let state = RunState {
                            phase: Phase::Loading,
                            today: Some(today),
                            trades,
                            flows,
                            tickers,
                            first_date: Some(first_date),
                            queue: Vec::new(),
                            next: 0,
                            book,
                            converter,
                            pending: None,
                        };
                        state.value(first_date, today)
                    }
                },
                RunEvent::StoreFailed { message } => self.give_up(message),
                _ => self.end(RunOutcome::Failed),
            },
            Phase::FetchingPrices | Phase::FetchingRates => match event {
                RunEvent::PricesFetched { observations } => {
                    if self.today.is_none() || self.first_date.is_none() || self.next
                        >= self.queue.len() {
                        return self.end(RunOutcome::Failed);
                    }
                    let ghost before = self;
                    let mut state = self;
                    let RunState { phase, today, trades, flows, tickers, first_date, queue, next, book, converter, pending } =
                        state;
                    let mut book = book;
                    book.record(queue[next].as_str(), &observations);
                    state =
                    RunState {
                        phase,
                        today,
                        trades,
                        flows,
                        tickers,
                        first_date,
                        queue,
                        next,
                        book,
                        converter,
                        pending,
                    };
                    let ghost recorded = state;
                    let r = state.go_on();
                    proof {
                        lemma_went_on_from(before, recorded, r.0, r.1);
                    }
                    r
                },
                RunEvent::FetchFailed => {
                    if self.today.is_none() || self.first_date.is_none() || self.next
                        >= self.queue.len() {
                        return self.end(RunOutcome::Failed);
                    }
                    self.go_on()
                },
                RunEvent::StoreFailed { message } => self.give_up(message),
                _ => self.end(RunOutcome::Failed),
            },
            Phase::Clearing => match event {
                RunEvent::SeriesCleared => {
                    let RunState { phase: _, today, trades, flows, tickers, first_date, queue, next, book, converter, pending } =
                        self;
                    let state = RunState {
                        phase: Phase::Writing,
                        today,
                        trades,
                        flows,
                        tickers,
                        first_date,
                        queue,
                        next,
                        book,
                        converter,
                        pending: None,
                    };
                    match pending {
                        Some(data) => (state, RunAction::WriteSeries { data }),
                        None => state.end(RunOutcome::Failed),
                    }
                },
                RunEvent::StoreFailed { message } => self.give_up(message),
                _ => self.end(RunOutcome::Failed),
            },
            Phase::Writing => match event {
                RunEvent::SeriesWritten => {
                    let RunState { phase: _, today, trades, flows, tickers, first_date, queue, next, book, converter, pending } =
                        self;
                    (
                        RunState {
                            phase: Phase::Completing,
                            today,
                            trades,
                            flows,
                            tickers,
                            first_date,
                            queue,
                            next,
                            book,
                            converter,
                            pending,
                        },
                        RunAction::SaveStatus { status: RunStatus::Completed, error: None },
                    )
                },
                RunEvent::StoreFailed { message } => self.give_up(message),
                _ => self.end(RunOutcome::Failed),
            },
            Phase::Completing => match event {
                RunEvent::StatusSaved => self.end(RunOutcome::Completed),
                RunEvent::StoreFailed { message } => self.give_up(message),
                _ => self.end(RunOutcome::Failed),
            },
            Phase::Failing => self.end(RunOutcome::Failed),
            Phase::Finished => self.end(RunOutcome::Failed),
        }
    }

    /// Ends the run.
    fn end(self, outcome: RunOutcome) -> (r: (RunState, RunAction))
        ensures
            r.0.phase == Phase::Finished,
            r.0.converter == self.converter,
            same_series(&r.0.book, &self.book),
            stops(r.1, outcome),
    {
        let RunState { phase: _, today, trades, flows, tickers, first_date, queue, next, book, converter, pending } =
            self;
        (
            RunState {
                phase: Phase::Finished,
                today,
                trades,
                flows,
                tickers,
                first_date,
                queue,
                next,
                book,
                converter,
                pending,
            },
            RunAction::Stop { outcome },
        )
    }

    /// Gives the run up: the status `Failed` is to be saved with the message.
    fn give_up(self, message: String) -> (r: (RunState, RunAction))
        ensures
            r.0.phase == Phase::Failing,
            r.0.converter == self.converter,
            same_series(&r.0.book, &self.book),
            marks_failed_with(r.1, message),
    {
        let RunState { phase: _, today, trades, flows, tickers, first_date, queue, next, book, converter, pending } =
            self;
        (
            RunState {
                phase: Phase::Failing,
                today,
                trades,
                flows,
                tickers,
                first_date,
                queue,
                next,
                book,
                converter,
                pending,
            },
            fail(message),
        )
    }
}

/// A copy of the names.
fn copy_names(names: &Vec<String>) -> (r: Vec<String>)
    ensures
        r@ == names@,
{
    let mut out: Vec<String> = Vec::new();
    let mut i: usize = 0;
    while i < names.len()
        invariant
            i <= names.len(),
            out@ == names@.take(i as int),
        decreases names.len() - i,
    {
        out.push(names[i].clone());
        assert(names@.take(i + 1) == names@.take(i as int).push(names@[i as int]));
        i += 1;
    }
    assert(names@.take(names.len() as int) == names@);
    out
}

/// Books with the same series call for the same exchange rates.
pub proof fn lemma_need_follows_series(
    a: &PriceBook,
    b: &PriceBook,
    converter: &CurrencyConverter,
    tickers: Seq<String>,
)
    requires
        same_series(a, b),
    ensures
        forall|fx: Seq<char>|
            rate_needed(a, converter, tickers, fx) == rate_needed(b, converter, tickers, fx),
{
    assert forall|fx: Seq<char>|
        rate_needed(a, converter, tickers, fx) == rate_needed(b, converter, tickers, fx) by {
        assert(a.series(fx) == b.series(fx));
        if rate_needed(a, converter, tickers, fx) {
            let t = choose|t: int|
                0 <= t < tickers.len() && a.has((#[trigger] tickers[t])@) && a.currency(tickers[t]@)
                    != "GBP"@ && a.currency(tickers[t]@) != "GBp"@ && converter.fx_ticker(
                    a.currency(tickers[t]@),
                ) == Some(fx);
            assert(a.series(tickers[t]@) == b.series(tickers[t]@));
        }
        if rate_needed(b, converter, tickers, fx) {
            let t = choose|t: int|
                0 <= t < tickers.len() && b.has((#[trigger] tickers[t])@) && b.currency(tickers[t]@)
                    != "GBP"@ && b.currency(tickers[t]@) != "GBp"@ && converter.fx_ticker(
                    b.currency(tickers[t]@),
                ) == Some(fx);
            assert(a.series(tickers[t]@) == b.series(tickers[t]@));
        }
    }
}

/// Going on from a state that differs from another in its book alone is
/// going on from the other.
proof fn lemma_went_on_from(before: RunState, recorded: RunState, after: RunState, action: RunAction)
    requires
        went_on(recorded, after, action),
        recorded.phase == before.phase,
        recorded.today == before.today,
        recorded.first_date == before.first_date,
        recorded.queue@ == before.queue@,
        recorded.next == before.next,
        recorded.trades@ == before.trades@,
        recorded.flows@ == before.flows@,
        recorded.tickers@ == before.tickers@,
    ensures
        went_on(before, after, action),
{
}

} // verus!
