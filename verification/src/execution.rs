//! What surrounds the core on a heartbeat: the health supervisor, the order and log
//! sinks, and the records that are logged.
pub mod events;
pub mod rotation;

pub use events::{
    encode_heartbeat_log_event_json, encode_order_log_event_json, HeartbeatLogEvent,
    OrderLogEvent,
};
pub use rotation::{heartbeat_log_file_name, LogRotation};

use crate::fixed::Fixed;
use crate::risk::kernel::{
    envelope_for, equity_now, find_config, raised_peak, sleeve_after, tick_summary,
};
use crate::risk::{
    GlobalRiskKernel, MarginState, PortfolioState, SleeveId, SleeveRiskEnvelope, SleeveState,
    VolatilityRegime,
};
use crate::strategies::macro_futures_sleeve::contracts::{contracts_plan, risk_report};
use crate::strategies::macro_futures_sleeve::orders::{is_order_for, order_intents, tradable_from};
use crate::strategies::macro_futures_sleeve::plan::{sanity_of, sleeve_aggregate};
use crate::strategies::macro_futures_sleeve::{
    EngineOrder, FuturesRiskBudget, FuturesSleeveContext, InstrumentHistory, InstrumentMap,
    MacroFuturesHeartbeatOutput, MacroFuturesSleeve, MacroScalars,
};
use crate::text::{decimal_text, push_decimal};
use vstd::prelude::*;
use vstd::string::StringSliceAdditionalSpecFns;

verus! {

/// Whether the engine keeps up with its heartbeat.
#[derive(Debug, Clone, Copy, PartialEq, Eq, Structural)]
pub enum EngineHealth {
    Healthy,
    /// Behind on ticks.
    Degraded,
}

/// Watches the gaps between heartbeats.
pub struct HeartbeatSupervisor {
    /// Time of the last tick, in seconds.
    pub last_tick_ts: Option<i64>,
    /// Longest gap between two ticks that still counts as healthy, in seconds.
    pub max_gap_seconds: i64,
    pub health: EngineHealth,
}

/// Health after a tick at `ts_utc` that follows a tick at `last`, if there was one: degraded
/// exactly when the gap is longer than `max_gap_seconds`.
pub open spec fn health_after_tick(last: Option<i64>, max_gap_seconds: i64, ts_utc: i64)
    -> EngineHealth {
    match last {
        None => EngineHealth::Healthy,
        Some(prev) => if ts_utc - prev > max_gap_seconds {
            EngineHealth::Degraded
        } else {
            EngineHealth::Healthy
        },
    }
}

impl HeartbeatSupervisor {
    /// A supervisor that has seen no tick yet and is healthy.
    pub fn new(max_gap_seconds: i64) -> (s: Self)
        ensures
            s.last_tick_ts is None,
            s.max_gap_seconds == max_gap_seconds,
            s.health == EngineHealth::Healthy,
    {
        Self { last_tick_ts: None, max_gap_seconds, health: EngineHealth::Healthy }
    }

    /// Records a tick at `ts_utc`. The first tick leaves the engine healthy; a later one
    /// degrades it when it comes more than `max_gap_seconds` after the one before, and
    /// makes it healthy again otherwise.
    pub fn register_tick(&mut self, ts_utc: i64)
        ensures
            final(self).last_tick_ts == Some(ts_utc),
            final(self).max_gap_seconds == old(self).max_gap_seconds,
            final(self).health == health_after_tick(
                old(self).last_tick_ts,
                old(self).max_gap_seconds,
                ts_utc,
            ),
    {
        match self.last_tick_ts {
            None => {
                self.health = EngineHealth::Healthy;
            },
            Some(prev) => {
                let gap: i128 = ts_utc as i128 - prev as i128;
                if gap > self.max_gap_seconds as i128 {
                    self.health = EngineHealth::Degraded;
                } else {
                    self.health = EngineHealth::Healthy;
                }
            },
        }
        self.last_tick_ts = Some(ts_utc);
    }

    /// The health after the last tick.
    pub fn health(&self) -> (h: EngineHealth)
        ensures
            h == self.health,
    {
        self.health
    }
}

/// What the supervisor logs when it sees a gap.
#[derive(Debug)]
pub struct HeartbeatSupervisorEvent {
    pub ts_utc: i64,
    pub status: EngineHealth,
    pub msg: &'static str,
}

/// The name of a health state.
pub open spec fn health_text(h: EngineHealth) -> Seq<char> {
    match h {
        EngineHealth::Healthy => "Healthy"@,
        EngineHealth::Degraded => "Degraded"@,
    }
}

/// The name of a health state.
pub fn health_name(h: EngineHealth) -> (name: &'static str)
    ensures
        name@ == health_text(h),
{
    match h {
        EngineHealth::Healthy => "Healthy",
        EngineHealth::Degraded => "Degraded",
    }
}

/// A supervisor event as one line of JSON; the message is written as it is.
pub open spec fn supervisor_event_json(ev: HeartbeatSupervisorEvent) -> Seq<char> {
    "{\"ts_utc\":"@ + decimal_text(ev.ts_utc as int) + ",\"status\":\""@ + health_text(ev.status)
        + "\",\"msg\":\""@ + ev.msg@ + "\"}"@
}

/// A supervisor event as one line of JSON.
pub fn encode_supervisor_event_json(ev: &HeartbeatSupervisorEvent) -> (line: String)
    ensures
        line@ == supervisor_event_json(*ev),
{
    let mut line = String::from_str("{\"ts_utc\":");
    push_decimal(&mut line, ev.ts_utc);
    line.append(",\"status\":\"");
    line.append(health_name(ev.status));
    line.append("\",\"msg\":\"");
    line.append(ev.msg);
    line.append("\"}");
    line
}

/// Takes the orders of a heartbeat.
///
/// A sink answers for the history of what it was handed: `submit` adds the order to it
/// and `flush` leaves it alone. The sinks of this library are held to that; of a sink
/// written elsewhere it is taken on trust.
pub trait OrderSink {
    /// The orders handed to the sink so far, oldest first.
    open spec fn submitted(&self) -> Seq<EngineOrder> {
        arbitrary()
    }

    /// Hands one order to what executes it.
    fn submit(&mut self, order: &EngineOrder)
        ensures
            final(self).submitted() == old(self).submitted().push(*order),
    ;

    /// Asks the sink to pass on what it holds; no order is handed over by this.
    fn flush(&mut self)
        ensures
            final(self).submitted() == old(self).submitted(),
    {
    }
}

/// What a log sink is asked to do.
pub enum LogSinkEvent {
    /// To log this line.
    Line(Seq<char>),
    /// To pass on what it holds.
    Flush,
}

/// The requests to log each of `lines`, in their order.
pub open spec fn line_events(lines: Seq<Seq<char>>) -> Seq<LogSinkEvent> {
    lines.map_values(|line: Seq<char>| LogSinkEvent::Line(line))
}

/// Takes the log lines of a heartbeat, one JSON record per line.
///
/// A sink answers for the history of what it was asked to do: `log` adds the line to
/// it and `flush` adds the request to flush. The sinks of this library are held to
/// that; of a sink written elsewhere it is taken on trust.
pub trait HeartbeatLogSink {
    /// What the sink was asked to do so far, oldest first.
    open spec fn received(&self) -> Seq<LogSinkEvent> {
        arbitrary()
    }

    /// Logs one line.
    fn log(&mut self, line: &str)
        ensures
            final(self).received() == old(self).received().push(LogSinkEvent::Line(line@)),
    ;

    /// Asks the sink to pass on what it holds.
    fn flush(&mut self)
        ensures
            final(self).received() == old(self).received().push(LogSinkEvent::Flush),
    ;
}

/// A sink that keeps the orders it is given, in the order given.
#[derive(Debug)]
pub struct InMemoryOrderSink {
    pub orders: Vec<EngineOrder>,
}

impl InMemoryOrderSink {
    /// A sink that holds no order yet.
    pub fn new() -> (s: Self)
        ensures
            s.orders@.len() == 0,
    {
        Self { orders: Vec::new() }
    }
}

impl Default for InMemoryOrderSink {
    fn default() -> (s: Self)
        ensures
            s.orders@.len() == 0,
    {
        Self { orders: Vec::new() }
    }
}

impl OrderSink for InMemoryOrderSink {
    open spec fn submitted(&self) -> Seq<EngineOrder> {
        self.orders@
    }

    fn submit(&mut self, order: &EngineOrder)
        ensures
            final(self).orders@ == old(self).orders@.push(*order),
    {
        self.orders.push(*order);
    }
}

/// What one heartbeat of the engine gave for the macro futures sleeve.
#[derive(Debug, Clone)]
pub struct MacroFuturesEngineHeartbeatResult {
    pub envelope: SleeveRiskEnvelope,
    pub heartbeat: MacroFuturesHeartbeatOutput,
    pub engine_orders: Vec<EngineOrder>,
}

/// The context that the engine hands to the sleeve: the envelope of this tick, the
/// health of the engine, and the caller's histories, scalars and positions, at the
/// time of the scalars.
pub open spec fn engine_context(
    histories: InstrumentMap<InstrumentHistory>,
    macro_scalars: MacroScalars,
    envelope: SleeveRiskEnvelope,
    current_positions: InstrumentMap<i32>,
    eur_per_usd: Fixed,
    engine_health: EngineHealth,
) -> FuturesSleeveContext {
    FuturesSleeveContext {
        as_of: macro_scalars.as_of,
        histories,
        macro_scalars,
        risk_envelope: envelope,
        current_positions,
        eur_per_usd,
        engine_health,
    }
}

/// Whether `result` is what the sleeve `sleeve` gives on the context `ctx`: the
/// envelope of the context, the sleeve's plan and order intents, and one order for
/// each intent that moves a position.
pub open spec fn is_heartbeat_of(
    result: MacroFuturesEngineHeartbeatResult,
    sleeve: MacroFuturesSleeve,
    ctx: FuturesSleeveContext,
    risk_budget: FuturesRiskBudget,
    max_sleeve_risk_eur: Fixed,
) -> bool {
    &&& result.envelope == ctx.risk_envelope
    &&& result.heartbeat.sleeve_plan.planned_contracts@ == contracts_plan(
        sleeve.cfg,
        ctx,
        risk_budget,
    )
    &&& result.heartbeat.sleeve_plan.risk_report@ == risk_report(sleeve.cfg, ctx, risk_budget)
    &&& result.heartbeat.sleeve_plan.aggregate == sleeve_aggregate(sleeve.cfg, ctx, risk_budget)
    &&& result.heartbeat.sleeve_plan.sanity == sanity_of(
        result.heartbeat.sleeve_plan.aggregate.total_risk_eur,
        max_sleeve_risk_eur,
    )
    &&& result.heartbeat.order_intents@ == order_intents(sleeve.cfg, ctx, risk_budget)
    &&& result.engine_orders@.len() == tradable_from(result.heartbeat.order_intents@, 0).len()
    &&& forall|k: int|
        0 <= k < result.engine_orders@.len() ==> is_order_for(
            #[trigger] result.engine_orders@[k],
            SleeveId::MicroFuturesMacroTrend,
            tradable_from(result.heartbeat.order_intents@, 0)[k],
        )
}

/// The envelope that a tick of `kernel` gives the one sleeve `sleeve_state`.
pub open spec fn single_sleeve_envelope(
    kernel: GlobalRiskKernel,
    portfolio: PortfolioState,
    sleeve_state: SleeveState,
    margin: MarginState,
    vol: VolatilityRegime,
) -> SleeveRiskEnvelope {
    envelope_for(
        tick_summary(
            kernel.config.portfolio,
            raised_peak(kernel.internal_portfolio_peak_equity, equity_now(portfolio)),
            portfolio,
            seq![sleeve_state],
            margin,
            vol,
        ),
        find_config(kernel.config.sleeves@, sleeve_state.sleeve_id).unwrap(),
        sleeve_state,
    )
}

/// One heartbeat of the engine for the macro futures sleeve under the health
/// `engine_health`: the kernel's tick over this one sleeve, the sleeve's heartbeat
/// under the envelope it got, and the orders, each of which is handed to `sink` in
/// turn. A degraded engine plans nothing new and flattens what it holds.
pub fn run_macro_futures_engine_heartbeat_under<S: OrderSink>(
    now_ts: i64,
    kernel: &mut GlobalRiskKernel,
    portfolio: &PortfolioState,
    sleeve_state: &mut SleeveState,
    margin: &MarginState,
    vol: &VolatilityRegime,
    sleeve: &MacroFuturesSleeve,
    histories: InstrumentMap<InstrumentHistory>,
    macro_scalars: MacroScalars,
    current_positions: InstrumentMap<i32>,
    eur_per_usd: Fixed,
    engine_health: EngineHealth,
    risk_budget: &FuturesRiskBudget,
    max_sleeve_risk_eur: Fixed,
    sink: &mut S,
) -> (result: MacroFuturesEngineHeartbeatResult)
    requires
        old(sleeve_state).sleeve_id == SleeveId::MicroFuturesMacroTrend,
        find_config(old(kernel).config.sleeves@, SleeveId::MicroFuturesMacroTrend) is Some,
    ensures
        final(kernel).config == old(kernel).config,
        final(kernel).internal_portfolio_peak_equity == raised_peak(
            old(kernel).internal_portfolio_peak_equity,
            equity_now(*portfolio),
        ),
        *final(sleeve_state) == sleeve_after(*old(sleeve_state)),
        is_heartbeat_of(
            result,
            *sleeve,
            engine_context(
                histories,
                macro_scalars,
                single_sleeve_envelope(*old(kernel), *portfolio, *old(sleeve_state), *margin, *vol),
                current_positions,
                eur_per_usd,
                engine_health,
            ),
            *risk_budget,
            max_sleeve_risk_eur,
        ),
        final(sink).submitted() == old(sink).submitted() + result.engine_orders@,
{
    let mut sleeves: Vec<SleeveState> = Vec::new();
    sleeves.push(*sleeve_state);
    assert(sleeves@ =~= seq![*old(sleeve_state)]);
    let envelopes = kernel.evaluate(now_ts, portfolio, &mut sleeves, margin, vol);
    *sleeve_state = sleeves[0];
    let env = envelopes[0];
    let ctx = FuturesSleeveContext {
        as_of: macro_scalars.as_of,
        histories,
        macro_scalars,
        risk_envelope: env,
        current_positions,
        eur_per_usd,
        engine_health,
    };
    let hb = sleeve.run_heartbeat(&ctx, risk_budget, max_sleeve_risk_eur);
    let engine_orders = sleeve.map_heartbeat_to_engine_orders(
        SleeveId::MicroFuturesMacroTrend,
        &hb,
    );
    let mut i: usize = 0;
    while i < engine_orders.len()
        invariant
            i <= engine_orders.len(),
            sink.submitted() == old(sink).submitted() + engine_orders@.take(i as int),
        decreases engine_orders.len() - i,
    {
        sink.submit(&engine_orders[i]);
        assert(engine_orders@.take(i + 1) =~= engine_orders@.take(i as int).push(
            engine_orders@[i as int],
        ));
        i = i + 1;
    }
    assert(engine_orders@.take(i as int) =~= engine_orders@);
    MacroFuturesEngineHeartbeatResult { envelope: env, heartbeat: hb, engine_orders }
}

/// One heartbeat of a healthy engine for the macro futures sleeve: the kernel's tick
/// over this one sleeve, the sleeve's heartbeat under the envelope it got, and the
/// orders, each of which is handed to `sink` in turn.
pub fn run_macro_futures_engine_heartbeat<S: OrderSink>(
    now_ts: i64,
    kernel: &mut GlobalRiskKernel,
    portfolio: &PortfolioState,
    sleeve_state: &mut SleeveState,
    margin: &MarginState,
    vol: &VolatilityRegime,
    sleeve: &MacroFuturesSleeve,
    histories: InstrumentMap<InstrumentHistory>,
    macro_scalars: MacroScalars,
    current_positions: InstrumentMap<i32>,
    eur_per_usd: Fixed,
    risk_budget: &FuturesRiskBudget,
    max_sleeve_risk_eur: Fixed,
    sink: &mut S,
) -> (result: MacroFuturesEngineHeartbeatResult)
    requires
        old(sleeve_state).sleeve_id == SleeveId::MicroFuturesMacroTrend,
        find_config(old(kernel).config.sleeves@, SleeveId::MicroFuturesMacroTrend) is Some,
    ensures
        final(kernel).config == old(kernel).config,
        final(kernel).internal_portfolio_peak_equity == raised_peak(
            old(kernel).internal_portfolio_peak_equity,
            equity_now(*portfolio),
        ),
        *final(sleeve_state) == sleeve_after(*old(sleeve_state)),
        is_heartbeat_of(
            result,
            *sleeve,
            engine_context(
                histories,
                macro_scalars,
                single_sleeve_envelope(*old(kernel), *portfolio, *old(sleeve_state), *margin, *vol),
                current_positions,
                eur_per_usd,
                EngineHealth::Healthy,
            ),
            *risk_budget,
            max_sleeve_risk_eur,
        ),
        final(sink).submitted() == old(sink).submitted() + result.engine_orders@,
{
    run_macro_futures_engine_heartbeat_under(
        now_ts,
        kernel,
        portfolio,
        sleeve_state,
        margin,
        vol,
        sleeve,
        histories,
        macro_scalars,
        current_positions,
        eur_per_usd,
        EngineHealth::Healthy,
        risk_budget,
        max_sleeve_risk_eur,
        sink,
    )
}

/// The line that a heartbeat logs: its JSON record. (A record with a text that could
/// not be written as JSON would be logged as `{}`.)
pub open spec fn heartbeat_log_line(
    ts_utc: i64,
    result: MacroFuturesEngineHeartbeatResult,
    health: EngineHealth,
) -> Seq<char> {
    match events::heartbeat_event_json(ts_utc, result, health) {
        Some(text) => text,
        None => "{}"@,
    }
}

/// The lines that a heartbeat with logging hands to the log: the supervisor's line
/// where the engine is degraded, then the line of the heartbeat.
pub open spec fn heartbeat_log_lines(
    ts_utc: i64,
    result: MacroFuturesEngineHeartbeatResult,
    health: EngineHealth,
) -> Seq<Seq<char>> {
    (if health == EngineHealth::Degraded {
        seq![
            supervisor_event_json(
                HeartbeatSupervisorEvent {
                    ts_utc,
                    status: EngineHealth::Degraded,
                    msg: "heartbeat_gap_detected",
                },
            ),
        ]
    } else {
        Seq::empty()
    }) + seq![heartbeat_log_line(ts_utc, result, health)]
}

/// The heartbeat of the engine with logging. The tick is first registered with the
/// supervisor; if that leaves the engine degraded, a supervisor event is logged. Then
/// the heartbeat runs under the health that the supervisor found, as
/// [`run_macro_futures_engine_heartbeat_under`] does, and its record is logged as one
/// JSON line.
pub fn run_macro_futures_engine_heartbeat_with_logging<S: OrderSink, L: HeartbeatLogSink>(
    now_ts: i64,
    supervisor: &mut HeartbeatSupervisor,
    kernel: &mut GlobalRiskKernel,
    portfolio: &PortfolioState,
    sleeve_state: &mut SleeveState,
    margin: &MarginState,
    vol: &VolatilityRegime,
    sleeve: &MacroFuturesSleeve,
    histories: InstrumentMap<InstrumentHistory>,
    macro_scalars: MacroScalars,
    current_positions: InstrumentMap<i32>,
    eur_per_usd: Fixed,
    risk_budget: &FuturesRiskBudget,
    max_sleeve_risk_eur: Fixed,
    sink: &mut S,
    heartbeat_log_sink: &mut L,
) -> (result: MacroFuturesEngineHeartbeatResult)
    requires
        old(sleeve_state).sleeve_id == SleeveId::MicroFuturesMacroTrend,
        find_config(old(kernel).config.sleeves@, SleeveId::MicroFuturesMacroTrend) is Some,
    ensures
        final(supervisor).last_tick_ts == Some(now_ts),
        final(supervisor).max_gap_seconds == old(supervisor).max_gap_seconds,
        final(supervisor).health == health_after_tick(
            old(supervisor).last_tick_ts,
            old(supervisor).max_gap_seconds,
            now_ts,
        ),
        final(kernel).config == old(kernel).config,
        final(kernel).internal_portfolio_peak_equity == raised_peak(
            old(kernel).internal_portfolio_peak_equity,
            equity_now(*portfolio),
        ),
        *final(sleeve_state) == sleeve_after(*old(sleeve_state)),
        is_heartbeat_of(
            result,
            *sleeve,
            engine_context(
                histories,
                macro_scalars,
                single_sleeve_envelope(*old(kernel), *portfolio, *old(sleeve_state), *margin, *vol),
                current_positions,
                eur_per_usd,
                final(supervisor).health,
            ),
            *risk_budget,
            max_sleeve_risk_eur,
        ),
        final(sink).submitted() == old(sink).submitted() + result.engine_orders@,
        final(heartbeat_log_sink).received() == old(heartbeat_log_sink).received() + line_events(
            heartbeat_log_lines(now_ts, result, final(supervisor).health),
        ),
{
    supervisor.register_tick(now_ts);
    let health = supervisor.health();
    if health == EngineHealth::Degraded {
        let sev = HeartbeatSupervisorEvent {
            ts_utc: now_ts,
            status: health,
            msg: "heartbeat_gap_detected",
        };
        let sev_json = encode_supervisor_event_json(&sev);
        heartbeat_log_sink.log(sev_json.as_str());
    }
    let result = run_macro_futures_engine_heartbeat_under(
        now_ts,
        kernel,
        portfolio,
        sleeve_state,
        margin,
        vol,
        sleeve,
        histories,
        macro_scalars,
        current_positions,
        eur_per_usd,
        health,
        risk_budget,
        max_sleeve_risk_eur,
        sink,
    );
    let json_line = encode_heartbeat_log_event_json(now_ts, &result, health);
    heartbeat_log_sink.log(json_line.as_str());
    assert(heartbeat_log_sink.received() =~= old(heartbeat_log_sink).received() + line_events(
        heartbeat_log_lines(now_ts, result, health),
    ));
    result
}

/// A boxed sink is a sink: it passes everything on to the sink in the box.
impl HeartbeatLogSink for Box<dyn HeartbeatLogSink> {
    open spec fn received(&self) -> Seq<LogSinkEvent> {
        (**self).received()
    }

    fn log(&mut self, line: &str) {
        (**self).log(line);
    }

    fn flush(&mut self) {
        (**self).flush();
    }
}

/// Keeps log lines back until `capacity` of them have come, or until it is flushed,
/// and then passes them on to the sink inside, oldest first.
pub struct BatchingHeartbeatLogger<S: HeartbeatLogSink = Box<dyn HeartbeatLogSink>> {
    pub inner: S,
    pub buffer: Vec<String>,
    pub capacity: usize,
    /// What the logger was asked to do so far.
    pub history: Ghost<Seq<LogSinkEvent>>,
}

/// What a flush hands to the sink inside: the lines kept back, oldest first, then the
/// request to flush.
pub open spec fn batch_events(lines: Seq<Seq<char>>) -> Seq<LogSinkEvent> {
    line_events(lines).push(LogSinkEvent::Flush)
}

impl<S: HeartbeatLogSink> BatchingHeartbeatLogger<S> {
    /// A logger around the sink `inner`, with nothing buffered, that passes lines on in
    /// batches of `capacity`.
    pub fn new(inner: S, capacity: usize) -> (b: Self)
        requires
            capacity > 0,
        ensures
            b.inner == inner,
            b.buffered() == Seq::<Seq<char>>::empty(),
            b.capacity == capacity,
            b.history@ == Seq::<LogSinkEvent>::empty(),
    {
        let b = Self { inner, buffer: Vec::new(), capacity, history: Ghost(Seq::empty()) };
        assert(b.buffered() =~= Seq::<Seq<char>>::empty());
        b
    }

    /// The lines kept back, oldest first.
    pub open spec fn buffered(&self) -> Seq<Seq<char>> {
        self.buffer@.map_values(|line: String| line@)
    }

    /// Number of lines kept back.
    pub fn buffered_len(&self) -> (n: usize)
        ensures
            n == self.buffered().len(),
    {
        self.buffer.len()
    }

    /// Passes every line kept back on to the sink inside, oldest first, and then
    /// flushes that sink.
    pub fn flush_inner(&mut self)
        ensures
            final(self).inner.received() == old(self).inner.received() + batch_events(
                old(self).buffered(),
            ),
            final(self).buffered() == Seq::<Seq<char>>::empty(),
            final(self).capacity == old(self).capacity,
            final(self).history == old(self).history,
    {
        let mut i: usize = 0;
        while i < self.buffer.len()
            invariant
                i <= self.buffer.len(),
                self.capacity == old(self).capacity,
                self.history == old(self).history,
                self.buffer == old(self).buffer,
                self.inner.received() == old(self).inner.received() + line_events(
                    old(self).buffered().take(i as int),
                ),
            decreases self.buffer.len() - i,
        {
            self.inner.log(self.buffer[i].as_str());
            assert(line_events(old(self).buffered().take(i + 1)) =~= line_events(
                old(self).buffered().take(i as int),
            ).push(LogSinkEvent::Line(self.buffer@[i as int]@)));
            i = i + 1;
        }
        assert(old(self).buffered().take(i as int) =~= old(self).buffered());
        self.buffer.clear();
        assert(self.buffered() =~= Seq::<Seq<char>>::empty());
        self.inner.flush();
        assert(self.inner.received() =~= old(self).inner.received() + batch_events(
            old(self).buffered(),
        ));
    }

    /// The sink inside, as it is after all that was passed on to it.
    pub fn into_inner(self) -> (sink: S)
        ensures
            sink == self.inner,
    {
        self.inner
    }
}

impl<S: HeartbeatLogSink> HeartbeatLogSink for BatchingHeartbeatLogger<S> {
    open spec fn received(&self) -> Seq<LogSinkEvent> {
        self.history@
    }

    /// Keeps `line` back and leaves the sink inside alone; with `line` the
    /// `capacity`-th line, passes all lines on to the sink inside, oldest first, and
    /// flushes it.
    fn log(&mut self, line: &str)
        ensures
            final(self).capacity == old(self).capacity,
            old(self).buffered().len() + 1 < old(self).capacity ==> {
                &&& final(self).inner == old(self).inner
                &&& final(self).buffered() == old(self).buffered().push(line@)
            },
            old(self).buffered().len() + 1 >= old(self).capacity ==> {
                &&& final(self).inner.received() == old(self).inner.received() + batch_events(
                    old(self).buffered().push(line@),
                )
                &&& final(self).buffered() == Seq::<Seq<char>>::empty()
            },
    {
        self.buffer.push(String::from_str(line));
        assert(self.buffered() =~= old(self).buffered().push(line@));
        if self.buffer.len() >= self.capacity {
            self.flush_inner();
        }
        proof {
            self.history@ = self.history@.push(LogSinkEvent::Line(line@));
        }
    }

    /// Passes on what is kept back, oldest first, and flushes the sink inside; with
    /// nothing kept back, leaves the sink inside alone.
    fn flush(&mut self)
        ensures
            old(self).buffered().len() > 0 ==> final(self).inner.received()
                == old(self).inner.received() + batch_events(old(self).buffered()),
            old(self).buffered().len() == 0 ==> final(self).inner == old(self).inner,
            final(self).buffered() == Seq::<Seq<char>>::empty(),
            final(self).capacity == old(self).capacity,
    {
        if self.buffer.len() > 0 {
            self.flush_inner();
        } else {
            assert(self.buffered() =~= Seq::<Seq<char>>::empty());
        }
        proof {
            self.history@ = self.history@.push(LogSinkEvent::Flush);
        }
    }
}

/// Writes each log line and a line feed to the writer it holds.
pub struct StdoutHeartbeatLogger<W> {
    pub writer: W,
    /// What the logger was asked to do so far.
    pub history: Ghost<Seq<LogSinkEvent>>,
}

impl<W> StdoutHeartbeatLogger<W> {
    /// A logger that writes to `writer` and has been asked nothing yet.
    pub fn with_writer(writer: W) -> (l: Self)
        ensures
            l.writer == writer,
            l.history@ == Seq::<LogSinkEvent>::empty(),
    {
        Self { writer, history: Ghost(Seq::empty()) }
    }

    /// The writer.
    pub fn into_inner(self) -> (w: W)
        ensures
            w == self.writer,
    {
        self.writer
    }
}

/// A logger into memory: the bytes of each line, then a line feed.
impl HeartbeatLogSink for StdoutHeartbeatLogger<Vec<u8>> {
    open spec fn received(&self) -> Seq<LogSinkEvent> {
        self.history@
    }

    fn log(&mut self, line: &str)
        ensures
            final(self).writer@ == old(self).writer@ + line.spec_bytes() + seq![10u8],
    {
        self.writer.extend_from_slice(line.as_bytes());
        self.writer.push(10u8);
        proof {
            self.history@ = self.history@.push(LogSinkEvent::Line(line@));
        }
    }

    fn flush(&mut self)
        ensures
            final(self).writer@ == old(self).writer@,
    {
        proof {
            self.history@ = self.history@.push(LogSinkEvent::Flush);
        }
    }
}

} // verus!
