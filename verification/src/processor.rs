//! The stream processor's per-message decisions: update the instrument's
//! window, and when — and only when — that window is full, produce an RSI
//! event for the same instrument.
//!
//! The surrounding loop (waiting for the next inbound message, decoding it,
//! publishing the outbound event) lives outside this library; it hands a
//! decoded trade — or nothing, for a malformed payload — to
//! `handle_message` and performs whatever event comes back. A malformed
//! payload changes no window and produces no event.

use vstd::prelude::*;

use crate::rsi::{compute_rsi, rsi_den, rsi_num, to_ints, Rsi};
use crate::window::{step_window, window_of, WindowStore, WINDOW_SIZE};

verus! {

/// One decoded inbound trade.
pub struct TradeEvent {
    /// Key of the instrument the trade belongs to.
    pub instrument_id: String,
    /// The traded price, as a scaled integer.
    pub price: i64,
    /// The trade's own textual timestamp, when the payload carried one.
    pub event_time: Option<String>,
}

/// One outbound indicator event, handed to the publisher.
pub struct RsiEvent {
    /// Key of the instrument the indicator belongs to.
    pub instrument_id: String,
    /// The exact RSI of the instrument's full window.
    pub rsi: Rsi,
    /// The trade's own timestamp when it had one, else the wall clock's.
    pub timestamp: String,
}

/// What one handled trade does: the trade's instrument gets its window
/// stepped and every other window stays; an event is produced exactly when
/// the stepped window is full, and then it carries the same instrument, the
/// exact RSI of that window, and the trade's own timestamp whenever the
/// trade had one.
pub open spec fn trade_post(
    pre: Map<Seq<char>, Seq<i64>>,
    trade: TradeEvent,
    post: Map<Seq<char>, Seq<i64>>,
    r: Option<RsiEvent>,
) -> bool {
    let w = step_window(window_of(pre, trade.instrument_id@), trade.price);
    &&& post == pre.insert(trade.instrument_id@, w)
    &&& (r is Some <==> w.len() == WINDOW_SIZE)
    &&& match r {
        Some(ev) => {
            &&& ev.instrument_id@ == trade.instrument_id@
            &&& ev.rsi.num == rsi_num(to_ints(w))
            &&& ev.rsi.den == rsi_den(to_ints(w))
            &&& ev.rsi.wf()
            &&& match trade.event_time {
                Some(t) => ev.timestamp@ == t@,
                None => true,
            }
        },
        None => true,
    }
}

/// Relies on chrono's `Utc::now` and `DateTime::to_rfc3339` for the
/// wall-clock fallback timestamp. Nothing is assumed of the text: it is the
/// clock's reading at the call. `Utc::now` expects the system clock not to
/// precede the Unix epoch.
#[verifier::external_body]
fn now_timestamp() -> String {
    chrono::Utc::now().to_rfc3339()
}

/// The control loop's state: every instrument's window, owned by one worker
/// that handles messages strictly in arrival order.
pub struct StreamProcessor {
    store: WindowStore,
}

impl StreamProcessor {
    /// The store is well formed.
    pub closed spec fn wf(self) -> bool {
        self.store.wf()
    }

    /// Every instrument's window, as the store's map model.
    pub closed spec fn windows(self) -> Map<Seq<char>, Seq<i64>> {
        self.store@
    }

    /// A processor with no history: restart begins with empty windows.
    pub fn new() -> (p: Self)
        ensures
            p.wf(),
            p.windows() == Map::<Seq<char>, Seq<i64>>::empty(),
    {
        StreamProcessor { store: WindowStore::new() }
    }

    /// Handles one decoded trade: steps the instrument's window and, exactly
    /// when that window is full, returns the RSI event to publish.
    pub fn handle_trade(&mut self, trade: TradeEvent) -> (r: Option<RsiEvent>)
        requires
            old(self).wf(),
        ensures
            final(self).wf(),
            trade_post(old(self).windows(), trade, final(self).windows(), r),
    {
        let TradeEvent { instrument_id, price, event_time } = trade;
        let w = self.store.update(&instrument_id, price);
        if w.len() == WINDOW_SIZE {
            let value = compute_rsi(&w);
            let timestamp = match event_time {
                Some(t) => t,
                None => now_timestamp(),
            };
            Some(RsiEvent { instrument_id, rsi: value, timestamp })
        } else {
            None
        }
    }

    /// Handles one inbound message after decoding. A malformed payload
    /// arrives as `None`: it is dropped, every window stays as it was, and
    /// nothing is produced. A decoded trade is handled as `handle_trade`
    /// says.
    pub fn handle_message(&mut self, decoded: Option<TradeEvent>) -> (r: Option<RsiEvent>)
        requires
            old(self).wf(),
        ensures
            final(self).wf(),
            match decoded {
                Some(trade) => trade_post(old(self).windows(), trade, final(self).windows(), r),
                None => final(self).windows() == old(self).windows() && r is None,
            },
    {
        match decoded {
            Some(trade) => self.handle_trade(trade),
            None => None,
        }
    }

    /// The instrument's current window contents, if it has traded.
    pub fn window(&self, instrument_id: &String) -> (r: Option<Vec<i64>>)
        requires
            self.wf(),
        ensures
            match r {
                Some(w) => self.windows().contains_key(instrument_id@) && w@ == self.windows().index(instrument_id@),
                None => !self.windows().contains_key(instrument_id@),
            },
    {
        self.store.window(instrument_id)
    }
}

/// Law: instruments are processed independently — a trade for one instrument
/// leaves every other instrument's window exactly as it was.
pub proof fn lemma_instrument_independence(
    pre: Map<Seq<char>, Seq<i64>>,
    trade: TradeEvent,
    post: Map<Seq<char>, Seq<i64>>,
    r: Option<RsiEvent>,
    other: Seq<char>,
)
    requires
        trade_post(pre, trade, post, r),
        other != trade.instrument_id@,
    ensures
        post.contains_key(other) == pre.contains_key(other),
        pre.contains_key(other) ==> post[other] == pre[other],
{
}

} // verus!
