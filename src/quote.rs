use vstd::prelude::*;

use crate::value::Cell;

verus! {

/// Open, high, low and close prices, each the IEEE-754 binary64 bit pattern of the price.
#[derive(Clone, Copy, Debug, PartialEq, Eq, Default)]
pub struct OhlcInner {
    pub open: u64,
    pub high: u64,
    pub low: u64,
    pub close: u64,
}

/// One level of the order book: price (binary64 bit pattern), quantity and order count.
#[derive(Clone, Copy, Debug, PartialEq, Eq, Default)]
pub struct OrderDepth {
    pub price: u64,
    pub quantity: u64,
    pub orders: u64,
}

/// The buy and sell sides of the order book, best level first.
#[derive(Clone, Debug, PartialEq, Eq, Default)]
pub struct Depth {
    pub buy: Vec<OrderDepth>,
    pub sell: Vec<OrderDepth>,
}

/// A decoded quote of one instrument, in the form used for bulk tables.
/// Every price is the IEEE-754 binary64 bit pattern of the price.
#[derive(Clone, Debug, PartialEq, Eq, Default)]
pub struct QuotesData {
    pub instrument_token: u64,
    pub timestamp: String,
    pub last_trade_time: String,
    pub last_price: u64,
    pub last_quantity: u64,
    pub buy_quantity: u64,
    pub sell_quantity: u64,
    pub volume: u64,
    pub average_price: u64,
    pub oi: u64,
    pub oi_day_high: u64,
    pub oi_day_low: u64,
    pub net_change: u64,
    pub lower_circuit_limit: u64,
    pub upper_circuit_limit: u64,
    pub ohlc: OhlcInner,
    pub depth: Depth,
}

/// Decoded quotes keyed by trading symbol, in the order the mapping is walked.
/// That order is not part of any promise made about the tables built from it.
#[derive(Clone, Debug, PartialEq, Eq, Default)]
pub struct Quotes {
    pub instruments: Vec<(String, QuotesData)>,
}

/// A calendar date and time of day, without time zone.
#[derive(Clone, Copy, Debug, PartialEq, Eq)]
pub struct DateTime {
    pub year: i32,
    pub month: u32,
    pub day: u32,
    pub hour: u32,
    pub minute: u32,
    pub second: u32,
}

/// A decoded quote of one instrument, in the single-record form: the times may
/// be absent, and the last traded quantity is signed. Prices are binary64 bit patterns.
#[derive(Clone, Debug, PartialEq, Eq, Default)]
pub struct QuoteData {
    pub instrument_token: u64,
    pub timestamp: Option<DateTime>,
    pub last_trade_time: Option<DateTime>,
    pub last_price: u64,
    pub last_quantity: i64,
    pub buy_quantity: u64,
    pub sell_quantity: u64,
    pub volume: u64,
    pub average_price: u64,
    pub oi: u64,
    pub oi_day_high: u64,
    pub oi_day_low: u64,
    pub net_change: u64,
    pub lower_circuit_limit: u64,
    pub upper_circuit_limit: u64,
    pub ohlc: OhlcInner,
    pub depth: Depth,
}

/// Kind of failure reported by the quote service.
#[derive(Clone, Copy, Debug, PartialEq, Eq)]
pub enum Exception {
    TokenException,
    UserException,
    OrderException,
    InputException,
    NetworkException,
    DataException,
    GeneralException,
}

/// Outcome reported by the quote service for a request.
#[derive(Clone, Copy, Debug, PartialEq, Eq)]
pub enum Status {
    Success,
    Error,
    Failed,
}

/// A response of the quote service: a status, and either the quotes keyed by
/// symbol or an error message and kind.
#[derive(Clone, Debug, PartialEq, Eq)]
pub struct Quote {
    pub status: Status,
    pub data: Option<Vec<(String, QuoteData)>>,
    pub message: Option<String>,
    pub error_type: Option<Exception>,
}

/// Cell `j` of the table row of the instrument `symbol` with quote `q`,
/// in the column order of the quote schema.
pub open spec fn record_cell(symbol: Seq<char>, q: QuotesData, j: int) -> Cell {
    if j == 0 {
        Cell::Str(symbol)
    } else if j == 1 {
        Cell::UInt(q.instrument_token)
    } else if j == 2 {
        Cell::Str(q.timestamp@)
    } else if j == 3 {
        Cell::Str(q.last_trade_time@)
    } else if j == 4 {
        Cell::Float(q.last_price)
    } else if j == 5 {
        Cell::UInt(q.last_quantity)
    } else if j == 6 {
        Cell::UInt(q.buy_quantity)
    } else if j == 7 {
        Cell::UInt(q.sell_quantity)
    } else if j == 8 {
        Cell::UInt(q.volume)
    } else if j == 9 {
        Cell::Float(q.average_price)
    } else if j == 10 {
        Cell::UInt(q.oi)
    } else if j == 11 {
        Cell::UInt(q.oi_day_high)
    } else if j == 12 {
        Cell::UInt(q.oi_day_low)
    } else if j == 13 {
        Cell::Float(q.net_change)
    } else if j == 14 {
        Cell::Float(q.lower_circuit_limit)
    } else if j == 15 {
        Cell::Float(q.upper_circuit_limit)
    } else if j == 16 {
        Cell::Float(q.ohlc.open)
    } else if j == 17 {
        Cell::Float(q.ohlc.high)
    } else if j == 18 {
        Cell::Float(q.ohlc.low)
    } else {
        Cell::Float(q.ohlc.close)
    }
}

/// The table row of the instrument `symbol` with quote `q`; depth is not part of it.
pub open spec fn record_row(symbol: Seq<char>, q: QuotesData) -> Seq<Cell> {
    Seq::new(20, |j: int| record_cell(symbol, q, j))
}

impl Quotes {
    /// Number of instruments.
    pub open spec fn len(&self) -> nat {
        self.instruments@.len()
    }

    /// The symbol of entry `i`.
    pub open spec fn symbol(&self, i: int) -> Seq<char> {
        self.instruments@[i].0@
    }

    /// No two entries have the same symbol.
    pub open spec fn wf(&self) -> bool {
        forall|i: int, j: int|
            0 <= i < j < self.instruments@.len() ==> self.symbol(i) != self.symbol(j)
    }

    /// Whether some entry has the symbol `symbol`.
    pub open spec fn has_symbol(&self, symbol: Seq<char>) -> bool {
        exists|k: int| 0 <= k < self.instruments@.len() && self.symbol(k) == symbol
    }

    /// A mapping without entries.
    pub fn new() -> (r: Quotes)
        ensures
            r.len() == 0,
            r.wf(),
    {
        Quotes { instruments: Vec::new() }
    }

    /// Stores `data` under `symbol`: the entry with that symbol, if there is
    /// one, is replaced in place; otherwise a new entry is appended.
    pub fn insert(&mut self, symbol: String, data: QuotesData)
        requires
            old(self).wf(),
        ensures
            final(self).wf(),
            old(self).has_symbol(symbol@) ==> final(self).instruments@.len()
                == old(self).instruments@.len() && forall|k: int|
                0 <= k < old(self).instruments@.len() ==> (#[trigger] final(self).instruments@[k])
                    == if old(self).symbol(k) == symbol@ {
                    (symbol, data)
                } else {
                    old(self).instruments@[k]
                },
            !old(self).has_symbol(symbol@) ==> final(self).instruments@ == old(
                self,
            ).instruments@.push((symbol, data)),
    {
        let mut k: usize = 0;
        while k < self.instruments.len()
            invariant
                k <= self.instruments@.len(),
                *self == *old(self),
                old(self).wf(),
                forall|m: int| 0 <= m < k ==> self.symbol(m) != symbol@,
            decreases self.instruments@.len() - k,
        {
            if self.instruments[k].0 == symbol {
                let ghost before = self.instruments@;
                assert(old(self).symbol(k as int) == symbol@);
                assert(old(self).has_symbol(symbol@));
                self.instruments[k] = (symbol, data);
                proof {
                    assert forall|m: int| 0 <= m < before.len() && m != k implies before[m].0@
                        != before[k as int].0@ by {
                        if m < k {
                            assert(old(self).symbol(m) != old(self).symbol(k as int));
                        } else {
                            assert(old(self).symbol(k as int) != old(self).symbol(m));
                        }
                    }
                    assert forall|i: int, j: int|
                        0 <= i < j < self.instruments@.len() implies self.symbol(i) != self.symbol(
                            j,
                        ) by {
                        assert(old(self).symbol(i) != old(self).symbol(j));
                    }
                }
                return;
            }
            k = k + 1;
        }
        let ghost before = self.instruments@;
        self.instruments.push((symbol, data));
        proof {
            assert forall|i: int, j: int|
                0 <= i < j < self.instruments@.len() implies self.symbol(i) != self.symbol(j) by {
                if j < before.len() {
                    assert(old(self).symbol(i) != old(self).symbol(j));
                } else {
                    assert(self.symbol(i) == old(self).symbol(i));
                    assert(old(self).symbol(i) != symbol@);
                }
            }
        }
    }

    /// The table rows, one per entry, in the order of the entries.
    pub open spec fn rows(&self) -> Seq<Seq<Cell>> {
        Seq::new(
            self.instruments@.len(),
            |i: int| record_row(self.instruments@[i].0@, self.instruments@[i].1),
        )
    }
}

} // verus!
