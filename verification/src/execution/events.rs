//! The records that a heartbeat logs, and their JSON lines.
//!
//! A record is a flat JSON object with its fields in the order of the struct.
//! Numbers are written in decimal, amounts with six digits after the point, and
//! texts as JSON string literals.
use super::{EngineHealth, MacroFuturesEngineHeartbeatResult};
use crate::fixed::Fixed;
use crate::json::{json_string_literal, quoted};
use crate::risk::{PortfolioRiskState, SleeveId};
use crate::strategies::macro_futures_sleeve::{EngineOrder, EngineOrderSide, SleeveRiskSanity};
use crate::text::{decimal_text, fixed_text, push_decimal, push_fixed};
use vstd::prelude::*;

verus! {

/// The name of a sleeve.
pub open spec fn sleeve_id_text(id: SleeveId) -> Seq<char> {
    match id {
        SleeveId::EquityLongShort => "EquityLongShort"@,
        SleeveId::StatArbResidual => "StatArbResidual"@,
        SleeveId::MicrostructureIntraday => "MicrostructureIntraday"@,
        SleeveId::OptionsVolPremium => "OptionsVolPremium"@,
        SleeveId::MicroFuturesMacroTrend => "MicroFuturesMacroTrend"@,
    }
}

/// The name of a sleeve.
pub fn sleeve_id_name(id: SleeveId) -> (name: &'static str)
    ensures
        name@ == sleeve_id_text(id),
{
    match id {
        SleeveId::EquityLongShort => "EquityLongShort",
        SleeveId::StatArbResidual => "StatArbResidual",
        SleeveId::MicrostructureIntraday => "MicrostructureIntraday",
        SleeveId::OptionsVolPremium => "OptionsVolPremium",
        SleeveId::MicroFuturesMacroTrend => "MicroFuturesMacroTrend",
    }
}

/// The name of an order side.
pub open spec fn side_text(side: EngineOrderSide) -> Seq<char> {
    match side {
        EngineOrderSide::Buy => "Buy"@,
        EngineOrderSide::Sell => "Sell"@,
    }
}

/// The name of an order side.
pub fn side_name(side: EngineOrderSide) -> (name: &'static str)
    ensures
        name@ == side_text(side),
{
    match side {
        EngineOrderSide::Buy => "Buy",
        EngineOrderSide::Sell => "Sell",
    }
}

/// The name of a risk classification.
pub open spec fn risk_state_text(state: PortfolioRiskState) -> Seq<char> {
    match state {
        PortfolioRiskState::Normal => "Normal"@,
        PortfolioRiskState::Caution => "Caution"@,
        PortfolioRiskState::Stress => "Stress"@,
    }
}

/// The name of a risk classification.
pub fn risk_state_name(state: PortfolioRiskState) -> (name: &'static str)
    ensures
        name@ == risk_state_text(state),
{
    match state {
        PortfolioRiskState::Normal => "Normal",
        PortfolioRiskState::Caution => "Caution",
        PortfolioRiskState::Stress => "Stress",
    }
}

/// The name under which the outcome of the risk check is logged.
pub open spec fn sanity_text(sanity: SleeveRiskSanity) -> Seq<char> {
    match sanity {
        SleeveRiskSanity::WithinCap => "Ok"@,
        SleeveRiskSanity::ExceedsCap => "ExceedsCap"@,
    }
}

/// The name under which the outcome of the risk check is logged.
pub fn sanity_name(sanity: SleeveRiskSanity) -> (name: &'static str)
    ensures
        name@ == sanity_text(sanity),
{
    match sanity {
        SleeveRiskSanity::WithinCap => "Ok",
        SleeveRiskSanity::ExceedsCap => "ExceedsCap",
    }
}

/// One order as it is logged.
#[derive(Debug, Clone)]
pub struct OrderLogEvent {
    /// Time of the order, in seconds.
    pub ts_utc: i64,
    pub sleeve_id: String,
    pub symbol: String,
    pub venue: String,
    /// "Buy" or "Sell".
    pub side: String,
    pub quantity: i32,
}

impl OrderLogEvent {
    /// Whether this is the record of `order` at time `ts_utc`.
    pub open spec fn records(&self, order: EngineOrder, ts_utc: i64) -> bool {
        &&& self.ts_utc == ts_utc
        &&& self.sleeve_id@ == sleeve_id_text(order.sleeve_id)
        &&& self.symbol@ == order.symbol@
        &&& self.venue@ == order.venue@
        &&& self.side@ == side_text(order.side)
        &&& self.quantity == order.quantity
    }

    /// The record of `order` at time `ts_utc`.
    pub fn from_engine_order(order: &EngineOrder, ts_utc: i64) -> (evt: Self)
        ensures
            evt.records(*order, ts_utc),
    {
        Self {
            ts_utc,
            sleeve_id: String::from_str(sleeve_id_name(order.sleeve_id)),
            symbol: String::from_str(order.symbol),
            venue: String::from_str(order.venue),
            side: String::from_str(side_name(order.side)),
            quantity: order.quantity,
        }
    }
}

/// The JSON object of an order record whose texts are given as JSON literals.
pub open spec fn order_event_frame(
    ts_utc: int,
    sleeve_id: Seq<char>,
    symbol: Seq<char>,
    venue: Seq<char>,
    side: Seq<char>,
    quantity: int,
) -> Seq<char> {
    "{\"ts_utc\":"@ + decimal_text(ts_utc) + ",\"sleeve_id\":"@ + sleeve_id + ",\"symbol\":"@
        + symbol + ",\"venue\":"@ + venue + ",\"side\":"@ + side + ",\"quantity\":"@
        + decimal_text(quantity) + "}"@
}

/// The JSON object of an order record from the JSON literals of its texts; there is
/// none where one of the texts has no literal.
pub open spec fn framed_order(
    ts_utc: int,
    sleeve_id: Option<Seq<char>>,
    symbol: Option<Seq<char>>,
    venue: Option<Seq<char>>,
    side: Option<Seq<char>>,
    quantity: int,
) -> Option<Seq<char>> {
    if sleeve_id is Some && symbol is Some && venue is Some && side is Some {
        Some(
            order_event_frame(
                ts_utc,
                sleeve_id.unwrap(),
                symbol.unwrap(),
                venue.unwrap(),
                side.unwrap(),
                quantity,
            ),
        )
    } else {
        None
    }
}

/// The JSON line of the record of `order` at time `ts_utc`, if all its texts can be
/// written as JSON.
pub open spec fn order_event_json(order: EngineOrder, ts_utc: i64) -> Option<Seq<char>> {
    framed_order(
        ts_utc as int,
        json_string_literal(sleeve_id_text(order.sleeve_id)),
        json_string_literal(order.symbol@),
        json_string_literal(order.venue@),
        json_string_literal(side_text(order.side)),
        order.quantity as int,
    )
}

/// The JSON line of an order record, if all its texts can be written as JSON.
pub open spec fn order_record_json(evt: OrderLogEvent) -> Option<Seq<char>> {
    framed_order(
        evt.ts_utc as int,
        json_string_literal(evt.sleeve_id@),
        json_string_literal(evt.symbol@),
        json_string_literal(evt.venue@),
        json_string_literal(evt.side@),
        evt.quantity as int,
    )
}

/// The JSON object of an order record whose texts are given as JSON literals.
pub fn frame_order_event(
    ts_utc: i64,
    sleeve_id: &str,
    symbol: &str,
    venue: &str,
    side: &str,
    quantity: i32,
) -> (line: String)
    ensures
        line@ == order_event_frame(
            ts_utc as int,
            sleeve_id@,
            symbol@,
            venue@,
            side@,
            quantity as int,
        ),
{
    let mut line = String::from_str("{\"ts_utc\":");
    push_decimal(&mut line, ts_utc);
    line.append(",\"sleeve_id\":");
    line.append(sleeve_id);
    line.append(",\"symbol\":");
    line.append(symbol);
    line.append(",\"venue\":");
    line.append(venue);
    line.append(",\"side\":");
    line.append(side);
    line.append(",\"quantity\":");
    push_decimal(&mut line, quantity as i64);
    line.append("}");
    line
}

/// The JSON line of an order record.
pub fn encode_order_event(evt: &OrderLogEvent) -> (r: Option<String>)
    ensures
        r matches Some(line) && order_record_json(*evt) == Some(line@),
{
    let sleeve_id = match quoted(evt.sleeve_id.as_str()) {
        Some(q) => q,
        None => {
            return None;
        },
    };
    let symbol = match quoted(evt.symbol.as_str()) {
        Some(q) => q,
        None => {
            return None;
        },
    };
    let venue = match quoted(evt.venue.as_str()) {
        Some(q) => q,
        None => {
            return None;
        },
    };
    let side = match quoted(evt.side.as_str()) {
        Some(q) => q,
        None => {
            return None;
        },
    };
    Some(
        frame_order_event(
            evt.ts_utc,
            sleeve_id.as_str(),
            symbol.as_str(),
            venue.as_str(),
            side.as_str(),
            evt.quantity,
        ),
    )
}

/// The JSON line of the record of `order` at time `ts_utc`.
pub fn encode_order_log_event_json(order: &EngineOrder, ts_utc: i64) -> (line: String)
    ensures
        order_event_json(*order, ts_utc) == Some(line@),
{
    let evt = OrderLogEvent::from_engine_order(order, ts_utc);
    match encode_order_event(&evt) {
        Some(line) => line,
        None => String::from_str("{}"),
    }
}

/// One heartbeat as it is logged.
#[derive(Debug, Clone)]
pub struct HeartbeatLogEvent {
    /// Time of the heartbeat, in seconds.
    pub ts_utc: i64,
    pub sleeve_id: String,
    pub portfolio_risk_state: String,
    pub engine_health: String,
    pub max_position_size_usd: Fixed,
    pub exposure_remaining_usd: Fixed,
    pub margin_remaining_usd: Fixed,
    pub total_risk_eur: Fixed,
    pub sanity: String,
    pub orders: Vec<OrderLogEvent>,
}

impl HeartbeatLogEvent {
    /// Whether this is the record of `result` at time `ts_utc` under `health`.
    pub open spec fn records(
        &self,
        ts_utc: i64,
        result: MacroFuturesEngineHeartbeatResult,
        health: EngineHealth,
    ) -> bool {
        &&& self.ts_utc == ts_utc
        &&& self.sleeve_id@ == sleeve_id_text(result.envelope.sleeve_id)
        &&& self.portfolio_risk_state@ == risk_state_text(result.envelope.portfolio_risk_state)
        &&& self.engine_health@ == super::health_text(health)
        &&& self.max_position_size_usd == result.envelope.max_position_size_usd
        &&& self.exposure_remaining_usd == result.envelope.exposure_remaining_usd
        &&& self.margin_remaining_usd == result.envelope.margin_remaining_usd
        &&& self.total_risk_eur == result.heartbeat.sleeve_plan.aggregate.total_risk_eur
        &&& self.sanity@ == sanity_text(result.heartbeat.sleeve_plan.sanity)
        &&& self.orders@.len() == result.engine_orders@.len()
        &&& forall|i: int|
            0 <= i < self.orders@.len() ==> (#[trigger] self.orders@[i]).records(
                result.engine_orders@[i],
                ts_utc,
            )
    }

    /// The record of `result` at time `ts_utc` under `health`.
    pub fn from_engine_result(
        ts_utc: i64,
        result: &MacroFuturesEngineHeartbeatResult,
        health: EngineHealth,
    ) -> (evt: Self)
        ensures
            evt.records(ts_utc, *result, health),
    {
        let mut orders: Vec<OrderLogEvent> = Vec::new();
        let mut i: usize = 0;
        while i < result.engine_orders.len()
            invariant
                i <= result.engine_orders.len(),
                orders@.len() == i,
                forall|j: int|
                    0 <= j < i ==> (#[trigger] orders@[j]).records(
                        result.engine_orders@[j],
                        ts_utc,
                    ),
            decreases result.engine_orders.len() - i,
        {
            orders.push(OrderLogEvent::from_engine_order(&result.engine_orders[i], ts_utc));
            i = i + 1;
        }
        Self {
            ts_utc,
            sleeve_id: String::from_str(sleeve_id_name(result.envelope.sleeve_id)),
            portfolio_risk_state: String::from_str(
                risk_state_name(result.envelope.portfolio_risk_state),
            ),
            engine_health: String::from_str(super::health_name(health)),
            max_position_size_usd: result.envelope.max_position_size_usd,
            exposure_remaining_usd: result.envelope.exposure_remaining_usd,
            margin_remaining_usd: result.envelope.margin_remaining_usd,
            total_risk_eur: result.heartbeat.sleeve_plan.aggregate.total_risk_eur,
            sanity: String::from_str(sanity_name(result.heartbeat.sleeve_plan.sanity)),
            orders,
        }
    }
}

/// The texts of `items` one after the other, with a comma between neighbours.
pub open spec fn comma_joined(items: Seq<Seq<char>>) -> Seq<char>
    decreases items.len(),
{
    if items.len() == 0 {
        Seq::empty()
    } else if items.len() == 1 {
        items[0]
    } else {
        comma_joined(items.drop_last()) + ","@ + items.last()
    }
}

/// The numbers of a heartbeat record.
pub struct HeartbeatFigures {
    pub ts_utc: i64,
    pub max_position_size_usd: Fixed,
    pub exposure_remaining_usd: Fixed,
    pub margin_remaining_usd: Fixed,
    pub total_risk_eur: Fixed,
}

/// The JSON object of a heartbeat record whose texts are given as JSON literals and
/// whose orders are given as JSON objects.
pub open spec fn heartbeat_event_frame(
    figures: HeartbeatFigures,
    sleeve_id: Seq<char>,
    portfolio_risk_state: Seq<char>,
    engine_health: Seq<char>,
    sanity: Seq<char>,
    orders: Seq<Seq<char>>,
) -> Seq<char> {
    "{\"ts_utc\":"@ + decimal_text(figures.ts_utc as int) + ",\"sleeve_id\":"@ + sleeve_id
        + ",\"portfolio_risk_state\":"@ + portfolio_risk_state + ",\"engine_health\":"@
        + engine_health + ",\"max_position_size_usd\":"@ + fixed_text(
        figures.max_position_size_usd,
    ) + ",\"exposure_remaining_usd\":"@ + fixed_text(figures.exposure_remaining_usd)
        + ",\"margin_remaining_usd\":"@ + fixed_text(figures.margin_remaining_usd)
        + ",\"total_risk_eur\":"@ + fixed_text(figures.total_risk_eur) + ",\"sanity\":"@ + sanity
        + ",\"orders\":["@ + comma_joined(orders) + "]}"@
}

/// The texts of `items`.
pub open spec fn texts_of(items: Seq<String>) -> Seq<Seq<char>> {
    items.map_values(|s: String| s@)
}

/// The JSON object of a heartbeat record whose texts are given as JSON literals and
/// whose orders are given as JSON objects.
pub fn frame_heartbeat_event(
    figures: &HeartbeatFigures,
    sleeve_id: &str,
    portfolio_risk_state: &str,
    engine_health: &str,
    sanity: &str,
    orders: &Vec<String>,
) -> (line: String)
    ensures
        line@ == heartbeat_event_frame(
            *figures,
            sleeve_id@,
            portfolio_risk_state@,
            engine_health@,
            sanity@,
            texts_of(orders@),
        ),
{
    let mut line = String::from_str("{\"ts_utc\":");
    push_decimal(&mut line, figures.ts_utc);
    line.append(",\"sleeve_id\":");
    line.append(sleeve_id);
    line.append(",\"portfolio_risk_state\":");
    line.append(portfolio_risk_state);
    line.append(",\"engine_health\":");
    line.append(engine_health);
    line.append(",\"max_position_size_usd\":");
    push_fixed(&mut line, figures.max_position_size_usd);
    line.append(",\"exposure_remaining_usd\":");
    push_fixed(&mut line, figures.exposure_remaining_usd);
    line.append(",\"margin_remaining_usd\":");
    push_fixed(&mut line, figures.margin_remaining_usd);
    line.append(",\"total_risk_eur\":");
    push_fixed(&mut line, figures.total_risk_eur);
    line.append(",\"sanity\":");
    line.append(sanity);
    line.append(",\"orders\":[");
    let ghost head = line@;
    let mut i: usize = 0;
    while i < orders.len()
        invariant
            i <= orders.len(),
            line@ == head + comma_joined(texts_of(orders@).take(i as int)),
        decreases orders.len() - i,
    {
        proof {
            let all = texts_of(orders@);
            assert(all.take(i + 1).drop_last() =~= all.take(i as int));
            assert(all.take(i + 1).last() == orders@[i as int]@);
            if i == 0 {
                assert(comma_joined(all.take(0)) =~= Seq::<char>::empty());
            }
        }
        if i > 0 {
            line.append(",");
        }
        line.append(orders[i].as_str());
        proof {
            let all = texts_of(orders@);
            assert(line@ =~= head + comma_joined(all.take(i + 1)));
        }
        i = i + 1;
    }
    proof {
        assert(texts_of(orders@).take(i as int) =~= texts_of(orders@));
    }
    line.append("]}");
    line
}

/// The numbers of a heartbeat record.
pub open spec fn figures_of(evt: HeartbeatLogEvent) -> HeartbeatFigures {
    HeartbeatFigures {
        ts_utc: evt.ts_utc,
        max_position_size_usd: evt.max_position_size_usd,
        exposure_remaining_usd: evt.exposure_remaining_usd,
        margin_remaining_usd: evt.margin_remaining_usd,
        total_risk_eur: evt.total_risk_eur,
    }
}

/// The JSON object of a heartbeat record from the JSON literals of its texts and the
/// JSON objects of its orders; there is none where one of them is missing.
pub open spec fn framed_heartbeat(
    figures: HeartbeatFigures,
    sleeve_id: Option<Seq<char>>,
    portfolio_risk_state: Option<Seq<char>>,
    engine_health: Option<Seq<char>>,
    sanity: Option<Seq<char>>,
    orders: Seq<Option<Seq<char>>>,
) -> Option<Seq<char>> {
    if sleeve_id is Some && portfolio_risk_state is Some && engine_health is Some && sanity is Some
        && (forall|i: int| 0 <= i < orders.len() ==> (#[trigger] orders[i]) is Some) {
        Some(
            heartbeat_event_frame(
                figures,
                sleeve_id.unwrap(),
                portfolio_risk_state.unwrap(),
                engine_health.unwrap(),
                sanity.unwrap(),
                orders.map_values(|order: Option<Seq<char>>| order.unwrap()),
            ),
        )
    } else {
        None
    }
}

/// The JSON line of a heartbeat record, if all its texts can be written as JSON.
pub open spec fn heartbeat_record_json(evt: HeartbeatLogEvent) -> Option<Seq<char>> {
    framed_heartbeat(
        figures_of(evt),
        json_string_literal(evt.sleeve_id@),
        json_string_literal(evt.portfolio_risk_state@),
        json_string_literal(evt.engine_health@),
        json_string_literal(evt.sanity@),
        evt.orders@.map_values(|o: OrderLogEvent| order_record_json(o)),
    )
}

/// The JSON line of the record of `result` at time `ts_utc` under `health`, if all its
/// texts can be written as JSON.
pub open spec fn heartbeat_event_json(
    ts_utc: i64,
    result: MacroFuturesEngineHeartbeatResult,
    health: EngineHealth,
) -> Option<Seq<char>> {
    framed_heartbeat(
        HeartbeatFigures {
            ts_utc,
            max_position_size_usd: result.envelope.max_position_size_usd,
            exposure_remaining_usd: result.envelope.exposure_remaining_usd,
            margin_remaining_usd: result.envelope.margin_remaining_usd,
            total_risk_eur: result.heartbeat.sleeve_plan.aggregate.total_risk_eur,
        },
        json_string_literal(sleeve_id_text(result.envelope.sleeve_id)),
        json_string_literal(risk_state_text(result.envelope.portfolio_risk_state)),
        json_string_literal(super::health_text(health)),
        json_string_literal(sanity_text(result.heartbeat.sleeve_plan.sanity)),
        result.engine_orders@.map_values(|o: EngineOrder| order_event_json(o, ts_utc)),
    )
}

/// The JSON line of a heartbeat record.
pub fn encode_heartbeat_event(evt: &HeartbeatLogEvent) -> (r: Option<String>)
    ensures
        r matches Some(line) && heartbeat_record_json(*evt) == Some(line@),
{
    let ghost records = evt.orders@.map_values(|o: OrderLogEvent| order_record_json(o));
    let sleeve_id = match quoted(evt.sleeve_id.as_str()) {
        Some(q) => q,
        None => {
            return None;
        },
    };
    let state = match quoted(evt.portfolio_risk_state.as_str()) {
        Some(q) => q,
        None => {
            return None;
        },
    };
    let health = match quoted(evt.engine_health.as_str()) {
        Some(q) => q,
        None => {
            return None;
        },
    };
    let sanity = match quoted(evt.sanity.as_str()) {
        Some(q) => q,
        None => {
            return None;
        },
    };
    let mut orders: Vec<String> = Vec::new();
    let mut i: usize = 0;
    while i < evt.orders.len()
        invariant
            i <= evt.orders.len(),
            orders@.len() == i,
            records == evt.orders@.map_values(|o: OrderLogEvent| order_record_json(o)),
            forall|j: int|
                0 <= j < i ==> order_record_json(evt.orders@[j]) == Some(
                    (#[trigger] orders@[j])@,
                ),
        decreases evt.orders.len() - i,
    {
        match encode_order_event(&evt.orders[i]) {
            Some(line) => {
                orders.push(line);
            },
            None => {
                assert(records[i as int] is None);
                return None;
            },
        }
        i = i + 1;
    }
    let figures = HeartbeatFigures {
        ts_utc: evt.ts_utc,
        max_position_size_usd: evt.max_position_size_usd,
        exposure_remaining_usd: evt.exposure_remaining_usd,
        margin_remaining_usd: evt.margin_remaining_usd,
        total_risk_eur: evt.total_risk_eur,
    };
    let line = frame_heartbeat_event(
        &figures,
        sleeve_id.as_str(),
        state.as_str(),
        health.as_str(),
        sanity.as_str(),
        &orders,
    );
    proof {
        assert forall|k: int| 0 <= k < records.len() implies (#[trigger] records[k]) is Some by {
            assert(order_record_json(evt.orders@[k]) == Some(orders@[k]@));
        }
        assert(texts_of(orders@) =~= records.map_values(
            |order: Option<Seq<char>>| order.unwrap(),
        )) by {
            assert forall|k: int| 0 <= k < records.len() implies texts_of(orders@)[k]
                == records[k].unwrap() by {
                assert(order_record_json(evt.orders@[k]) == Some(orders@[k]@));
            }
        }
    }
    Some(line)
}

/// The JSON line of the record of `result` at time `ts_utc` under `health`.
pub fn encode_heartbeat_log_event_json(
    ts_utc: i64,
    result: &MacroFuturesEngineHeartbeatResult,
    health: EngineHealth,
) -> (line: String)
    ensures
        heartbeat_event_json(ts_utc, *result, health) == Some(line@),
{
    let evt = HeartbeatLogEvent::from_engine_result(ts_utc, result, health);
    proof {
        assert(evt.orders@.map_values(|o: OrderLogEvent| order_record_json(o))
            =~= result.engine_orders@.map_values(|o: EngineOrder| order_event_json(o, ts_utc)))
            by {
            assert forall|i: int| 0 <= i < evt.orders@.len() implies order_record_json(
                evt.orders@[i],
            ) == order_event_json(result.engine_orders@[i], ts_utc) by {
                assert(evt.orders@[i].records(result.engine_orders@[i], ts_utc));
            }
        }
    }
    match encode_heartbeat_event(&evt) {
        Some(line) => line,
        None => String::from_str("{}"),
    }
}

} // verus!
