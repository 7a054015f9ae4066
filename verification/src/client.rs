//! The requests that a client makes: order ids, sides and options given as text.
use vstd::prelude::*;

use crate::engine::order::{AdaptivePriority, OrderAttrs, OrderKind, OrderRequest, Side};
use crate::text::{join, text_eq, to_uppercase, upper_text};
use crate::types::{InstrumentId, OrderId, Price};

verus! {

/// The side that a name in upper case stands for.
pub open spec fn named_side(name: Seq<char>) -> Option<Side> {
    if name == "BUY"@ || name == "B"@ {
        Some(Side::Buy)
    } else if name == "SELL"@ || name == "S"@ {
        Some(Side::Sell)
    } else if name == "SSHORT"@ || name == "SS"@ {
        Some(Side::ShortSell)
    } else {
        None
    }
}

/// The side that a name in upper case stands for.
pub fn side_from_upper(name: &str) -> (r: Option<Side>)
    ensures
        r == named_side(name@),
{
    if text_eq(name, "BUY") || text_eq(name, "B") {
        Some(Side::Buy)
    } else if text_eq(name, "SELL") || text_eq(name, "S") {
        Some(Side::Sell)
    } else if text_eq(name, "SSHORT") || text_eq(name, "SS") {
        Some(Side::ShortSell)
    } else {
        None
    }
}

/// The message about a side that is not known.
pub open spec fn side_error(s: Seq<char>) -> Seq<char> {
    "Invalid side '"@ + s + "': use 'BUY' or 'SELL'"@
}

/// What a result holds: a value, or the text of an error.
pub open spec fn result_view<T>(r: Result<T, String>) -> Result<T, Seq<char>> {
    match r {
        Ok(x) => Ok(x),
        Err(e) => Err(e@),
    }
}

/// The side that a text names, in upper or lower case.
pub open spec fn parsed_side(s: Seq<char>) -> Result<Side, Seq<char>> {
    match named_side(upper_text(s)) {
        Some(side) => Ok(side),
        None => Err(side_error(s)),
    }
}

/// Reads a side, in upper or lower case.
pub fn parse_side(s: &str) -> (r: Result<Side, String>)
    ensures
        result_view(r) == parsed_side(s@),
{
    match side_from_upper(to_uppercase(s).as_str()) {
        Some(side) => Ok(side),
        None => {
            let a = join("Invalid side '", s);
            Err(join(a.as_str(), "': use 'BUY' or 'SELL'"))
        },
    }
}

/// The time in force that a text names.
pub open spec fn parsed_tif(s: Seq<char>) -> Result<u8, Seq<char>> {
    if s == "DAY"@ {
        Ok(48u8)
    } else if s == "GTC"@ {
        Ok(49u8)
    } else if s == "GTD"@ || s == "DTC"@ {
        Ok(54u8)
    } else {
        Err("Invalid TIF: "@ + s + ". Use DAY, GTC, GTD, or DTC"@)
    }
}

/// Reads a time in force.
pub fn parse_tif(s: &str) -> (r: Result<u8, String>)
    ensures
        result_view(r) == parsed_tif(s@),
{
    if text_eq(s, "DAY") {
        Ok(48)
    } else if text_eq(s, "GTC") {
        Ok(49)
    } else if text_eq(s, "GTD") || text_eq(s, "DTC") {
        Ok(54)
    } else {
        let a = join("Invalid TIF: ", s);
        Err(join(a.as_str(), ". Use DAY, GTC, GTD, or DTC"))
    }
}

/// The priority that a text names.
pub open spec fn parsed_priority(s: Seq<char>) -> Result<AdaptivePriority, Seq<char>> {
    if s == "Patient"@ {
        Ok(AdaptivePriority::Patient)
    } else if s == "Normal"@ {
        Ok(AdaptivePriority::Normal)
    } else if s == "Urgent"@ {
        Ok(AdaptivePriority::Urgent)
    } else {
        Err("Invalid priority: "@ + s + ". Use Patient, Normal, or Urgent"@)
    }
}

/// Reads a priority.
pub fn parse_priority(s: &str) -> (r: Result<AdaptivePriority, String>)
    ensures
        result_view(r) == parsed_priority(s@),
{
    if text_eq(s, "Patient") {
        Ok(AdaptivePriority::Patient)
    } else if text_eq(s, "Normal") {
        Ok(AdaptivePriority::Normal)
    } else if text_eq(s, "Urgent") {
        Ok(AdaptivePriority::Urgent)
    } else {
        let a = join("Invalid priority: ", s);
        Err(join(a.as_str(), ". Use Patient, Normal, or Urgent"))
    }
}

/// A priority is read back from its name.
pub proof fn law_priority_round_trip(p: AdaptivePriority)
    ensures
        parsed_priority(crate::engine::order::priority_name(p)) == Ok::<AdaptivePriority, Seq<char>>(
            p,
        ),
{
    reveal_strlit("Patient");
    reveal_strlit("Normal");
    reveal_strlit("Urgent");
    assert("Patient"@.len() == 7 && "Normal"@.len() == 6 && "Urgent"@.len() == 6);
    assert("Normal"@[0] == 'N' && "Urgent"@[0] == 'U');
}

/// Purchases, sales and short sales each have a long and a short name.
pub proof fn law_side_names()
    ensures
        named_side("BUY"@) == Some(Side::Buy) && named_side("B"@) == Some(Side::Buy),
        named_side("SELL"@) == Some(Side::Sell) && named_side("S"@) == Some(Side::Sell),
        named_side("SSHORT"@) == Some(Side::ShortSell) && named_side("SS"@) == Some(
            Side::ShortSell,
        ),
{
    reveal_strlit("BUY");
    reveal_strlit("B");
    reveal_strlit("SELL");
    reveal_strlit("S");
    reveal_strlit("SSHORT");
    reveal_strlit("SS");
    assert("BUY"@.len() == 3 && "B"@.len() == 1 && "SELL"@.len() == 4 && "S"@.len() == 1
        && "SSHORT"@.len() == 6 && "SS"@.len() == 2);
    assert("B"@[0] == 'B' && "S"@[0] == 'S');
}

/// A side is read back from the name under which orders on it are kept.
pub proof fn law_side_round_trip(side: Side)
    ensures
        named_side(crate::engine::hot_loop::exec_report::side_action(side)) == Some(side),
{
    reveal_strlit("BUY");
    reveal_strlit("B");
    reveal_strlit("SELL");
    reveal_strlit("S");
    reveal_strlit("SSHORT");
    assert("BUY"@.len() == 3 && "B"@.len() == 1 && "SELL"@.len() == 4 && "S"@.len() == 1
        && "SSHORT"@.len() == 6);
}

/// A time in force is read back from the name under which it is kept.
pub proof fn law_tif_name_round_trip(tif: u8)
    requires
        tif == 48 || tif == 49 || tif == 54,
    ensures
        parsed_tif(crate::engine::hot_loop::exec_report::decoded_tif(tif)) == Ok::<u8, Seq<char>>(
            tif,
        ),
{
    reveal_strlit("DAY");
    reveal_strlit("GTC");
    reveal_strlit("GTD");
    reveal_strlit("DTC");
    assert("DAY"@[1] == 'A' && "GTC"@[1] == 'T' && "GTD"@[1] == 'T' && "DTC"@[1] == 'T');
    assert("DAY"@[0] == 'D' && "GTC"@[0] == 'G' && "GTD"@[0] == 'G' && "DTC"@[0] == 'D');
    assert("GTC"@[2] == 'C' && "GTD"@[2] == 'D');
}

/// Gives out order ids, and turns what a client asks for into requests.
pub struct OrderDesk {
    pub next_order_id: OrderId,
}

/// The order id that follows after some steps. Ids start again at 0 after the largest one.
pub open spec fn id_after(id: OrderId, steps: int) -> OrderId {
    ((id + steps) % 0x1_0000_0000_0000_0000) as u64
}

impl OrderDesk {
    /// A desk whose first order id is given.
    pub fn new(first: OrderId) -> (r: Self)
        ensures
            r.next_order_id == first,
    {
        OrderDesk { next_order_id: first }
    }

    fn take_id(&mut self) -> (r: OrderId)
        ensures
            r == old(self).next_order_id,
            final(self).next_order_id == id_after(old(self).next_order_id, 1),
    {
        let id = self.next_order_id;
        self.next_order_id = if id == u64::MAX {
            0
        } else {
            id + 1
        };
        id
    }

    /// A limit order. The order id is used up even when the side is not known.
    pub fn submit_limit(
        &mut self,
        instrument: InstrumentId,
        side: &str,
        qty: u32,
        price: Price,
    ) -> (r: Result<OrderRequest, String>)
        ensures
            final(self).next_order_id == id_after(old(self).next_order_id, 1),
            result_view(r) == match parsed_side(side@) {
                Ok(side) => Ok(
                    OrderRequest::SubmitLimit {
                        order_id: old(self).next_order_id,
                        instrument,
                        side,
                        qty,
                        price,
                    },
                ),
                Err(e) => Err(e),
            },
    {
        let order_id = self.take_id();
        match parse_side(side) {
            Ok(side) => Ok(OrderRequest::SubmitLimit { order_id, instrument, side, qty, price }),
            Err(e) => Err(e),
        }
    }

    /// A market order. The order id is used up even when the side is not known.
    pub fn submit_market(
        &mut self,
        instrument: InstrumentId,
        side: &str,
        qty: u32,
    ) -> (r: Result<OrderRequest, String>)
        ensures
            final(self).next_order_id == id_after(old(self).next_order_id, 1),
            result_view(r) == match parsed_side(side@) {
                Ok(side) => Ok(
                    OrderRequest::SubmitMarket {
                        order_id: old(self).next_order_id,
                        instrument,
                        side,
                        qty,
                    },
                ),
                Err(e) => Err(e),
            },
    {
        let order_id = self.take_id();
        match parse_side(side) {
            Ok(side) => Ok(OrderRequest::SubmitMarket { order_id, instrument, side, qty }),
            Err(e) => Err(e),
        }
    }

    /// A stop order. The order id is used up even when the side is not known.
    pub fn submit_stop(
        &mut self,
        instrument: InstrumentId,
        side: &str,
        qty: u32,
        stop_price: Price,
    ) -> (r: Result<OrderRequest, String>)
        ensures
            final(self).next_order_id == id_after(old(self).next_order_id, 1),
            result_view(r) == match parsed_side(side@) {
                Ok(side) => Ok(
                    OrderRequest::SubmitStop {
                        order_id: old(self).next_order_id,
                        instrument,
                        side,
                        qty,
                        stop_price,
                    },
                ),
                Err(e) => Err(e),
            },
    {
        let order_id = self.take_id();
        match parse_side(side) {
            Ok(side) => Ok(OrderRequest::SubmitStop { order_id, instrument, side, qty, stop_price }),
            Err(e) => Err(e),
        }
    }

    /// A stop-limit order. The order id is used up even when the side is not known.
    pub fn submit_stop_limit(
        &mut self,
        instrument: InstrumentId,
        side: &str,
        qty: u32,
        price: Price,
        stop_price: Price,
    ) -> (r: Result<OrderRequest, String>)
        ensures
            final(self).next_order_id == id_after(old(self).next_order_id, 1),
            result_view(r) == match parsed_side(side@) {
                Ok(side) => Ok(
                    OrderRequest::SubmitStopLimit {
                        order_id: old(self).next_order_id,
                        instrument,
                        side,
                        qty,
                        price,
                        stop_price,
                    },
                ),
                Err(e) => Err(e),
            },
    {
        let order_id = self.take_id();
        match parse_side(side) {
            Ok(side) => Ok(OrderRequest::SubmitStopLimit { order_id, instrument, side, qty, price, stop_price }),
            Err(e) => Err(e),
        }
    }

    /// A limit order that is good until it is cancelled. The order id is used up even when the side is not known.
    pub fn submit_limit_gtc(
        &mut self,
        instrument: InstrumentId,
        side: &str,
        qty: u32,
        price: Price,
        outside_rth: bool,
    ) -> (r: Result<OrderRequest, String>)
        ensures
            final(self).next_order_id == id_after(old(self).next_order_id, 1),
            result_view(r) == match parsed_side(side@) {
                Ok(side) => Ok(
                    OrderRequest::SubmitLimitGtc {
                        order_id: old(self).next_order_id,
                        instrument,
                        side,
                        qty,
                        price,
                        outside_rth,
                    },
                ),
                Err(e) => Err(e),
            },
    {
        let order_id = self.take_id();
        match parse_side(side) {
            Ok(side) => Ok(OrderRequest::SubmitLimitGtc { order_id, instrument, side, qty, price, outside_rth }),
            Err(e) => Err(e),
        }
    }

    /// A stop order that is good until it is cancelled. The order id is used up even when the side is not known.
    pub fn submit_stop_gtc(
        &mut self,
        instrument: InstrumentId,
        side: &str,
        qty: u32,
        stop_price: Price,
        outside_rth: bool,
    ) -> (r: Result<OrderRequest, String>)
        ensures
            final(self).next_order_id == id_after(old(self).next_order_id, 1),
            result_view(r) == match parsed_side(side@) {
                Ok(side) => Ok(
                    OrderRequest::SubmitStopGtc {
                        order_id: old(self).next_order_id,
                        instrument,
                        side,
                        qty,
                        stop_price,
                        outside_rth,
                    },
                ),
                Err(e) => Err(e),
            },
    {
        let order_id = self.take_id();
        match parse_side(side) {
            Ok(side) => Ok(OrderRequest::SubmitStopGtc { order_id, instrument, side, qty, stop_price, outside_rth }),
            Err(e) => Err(e),
        }
    }

    /// A stop-limit order that is good until it is cancelled. The order id is used up even when the side is not known.
    pub fn submit_stop_limit_gtc(
        &mut self,
        instrument: InstrumentId,
        side: &str,
        qty: u32,
        price: Price,
        stop_price: Price,
        outside_rth: bool,
    ) -> (r: Result<OrderRequest, String>)
        ensures
            final(self).next_order_id == id_after(old(self).next_order_id, 1),
            result_view(r) == match parsed_side(side@) {
                Ok(side) => Ok(
                    OrderRequest::SubmitStopLimitGtc {
                        order_id: old(self).next_order_id,
                        instrument,
                        side,
                        qty,
                        price,
                        stop_price,
                        outside_rth,
                    },
                ),
                Err(e) => Err(e),
            },
    {
        let order_id = self.take_id();
        match parse_side(side) {
            Ok(side) => Ok(OrderRequest::SubmitStopLimitGtc { order_id, instrument, side, qty, price, stop_price, outside_rth }),
            Err(e) => Err(e),
        }
    }

    /// A limit order that is filled at once, as far as it can be, or cancelled. The order id is used up even when the side is not known.
    pub fn submit_limit_ioc(
        &mut self,
        instrument: InstrumentId,
        side: &str,
        qty: u32,
        price: Price,
    ) -> (r: Result<OrderRequest, String>)
        ensures
            final(self).next_order_id == id_after(old(self).next_order_id, 1),
            result_view(r) == match parsed_side(side@) {
                Ok(side) => Ok(
                    OrderRequest::SubmitLimitIoc {
                        order_id: old(self).next_order_id,
                        instrument,
                        side,
                        qty,
                        price,
                    },
                ),
                Err(e) => Err(e),
            },
    {
        let order_id = self.take_id();
        match parse_side(side) {
            Ok(side) => Ok(OrderRequest::SubmitLimitIoc { order_id, instrument, side, qty, price }),
            Err(e) => Err(e),
        }
    }

    /// A limit order that is filled at once and in full, or cancelled. The order id is used up even when the side is not known.
    pub fn submit_limit_fok(
        &mut self,
        instrument: InstrumentId,
        side: &str,
        qty: u32,
        price: Price,
    ) -> (r: Result<OrderRequest, String>)
        ensures
            final(self).next_order_id == id_after(old(self).next_order_id, 1),
            result_view(r) == match parsed_side(side@) {
                Ok(side) => Ok(
                    OrderRequest::SubmitLimitFok {
                        order_id: old(self).next_order_id,
                        instrument,
                        side,
                        qty,
                        price,
                    },
                ),
                Err(e) => Err(e),
            },
    {
        let order_id = self.take_id();
        match parse_side(side) {
            Ok(side) => Ok(OrderRequest::SubmitLimitFok { order_id, instrument, side, qty, price }),
            Err(e) => Err(e),
        }
    }

    /// A trailing stop order. The order id is used up even when the side is not known.
    pub fn submit_trailing_stop(
        &mut self,
        instrument: InstrumentId,
        side: &str,
        qty: u32,
        trail_amt: Price,
    ) -> (r: Result<OrderRequest, String>)
        ensures
            final(self).next_order_id == id_after(old(self).next_order_id, 1),
            result_view(r) == match parsed_side(side@) {
                Ok(side) => Ok(
                    OrderRequest::SubmitTrailingStop {
                        order_id: old(self).next_order_id,
                        instrument,
                        side,
                        qty,
                        trail_amt,
                        trail_stop_price: 0,
                    },
                ),
                Err(e) => Err(e),
            },
    {
        let order_id = self.take_id();
        match parse_side(side) {
            Ok(side) => Ok(OrderRequest::SubmitTrailingStop { order_id, instrument, side, qty, trail_amt, trail_stop_price: 0 }),
            Err(e) => Err(e),
        }
    }

    /// A trailing stop-limit order. The order id is used up even when the side is not known.
    pub fn submit_trailing_stop_limit(
        &mut self,
        instrument: InstrumentId,
        side: &str,
        qty: u32,
        lmt_offset: Price,
        trail_amt: Price,
    ) -> (r: Result<OrderRequest, String>)
        ensures
            final(self).next_order_id == id_after(old(self).next_order_id, 1),
            result_view(r) == match parsed_side(side@) {
                Ok(side) => Ok(
                    OrderRequest::SubmitTrailingStopLimit {
                        order_id: old(self).next_order_id,
                        instrument,
                        side,
                        qty,
                        lmt_offset,
                        trail_amt,
                        trail_stop_price: 0,
                    },
                ),
                Err(e) => Err(e),
            },
    {
        let order_id = self.take_id();
        match parse_side(side) {
            Ok(side) => Ok(OrderRequest::SubmitTrailingStopLimit { order_id, instrument, side, qty, lmt_offset, trail_amt, trail_stop_price: 0 }),
            Err(e) => Err(e),
        }
    }

    /// A trailing stop order by percentage; `trail_pct` is in hundredths of a percent. The order id is used up even when the side is not known.
    pub fn submit_trailing_stop_pct(
        &mut self,
        instrument: InstrumentId,
        side: &str,
        qty: u32,
        trail_pct: u32,
    ) -> (r: Result<OrderRequest, String>)
        ensures
            final(self).next_order_id == id_after(old(self).next_order_id, 1),
            result_view(r) == match parsed_side(side@) {
                Ok(side) => Ok(
                    OrderRequest::SubmitTrailingStopPct {
                        order_id: old(self).next_order_id,
                        instrument,
                        side,
                        qty,
                        trail_pct,
                        trail_stop_price: 0,
                    },
                ),
                Err(e) => Err(e),
            },
    {
        let order_id = self.take_id();
        match parse_side(side) {
            Ok(side) => Ok(OrderRequest::SubmitTrailingStopPct { order_id, instrument, side, qty, trail_pct, trail_stop_price: 0 }),
            Err(e) => Err(e),
        }
    }

    /// A market order for the close. The order id is used up even when the side is not known.
    pub fn submit_moc(
        &mut self,
        instrument: InstrumentId,
        side: &str,
        qty: u32,
    ) -> (r: Result<OrderRequest, String>)
        ensures
            final(self).next_order_id == id_after(old(self).next_order_id, 1),
            result_view(r) == match parsed_side(side@) {
                Ok(side) => Ok(
                    OrderRequest::SubmitMoc {
                        order_id: old(self).next_order_id,
                        instrument,
                        side,
                        qty,
                    },
                ),
                Err(e) => Err(e),
            },
    {
        let order_id = self.take_id();
        match parse_side(side) {
            Ok(side) => Ok(OrderRequest::SubmitMoc { order_id, instrument, side, qty }),
            Err(e) => Err(e),
        }
    }

    /// A limit order for the close. The order id is used up even when the side is not known.
    pub fn submit_loc(
        &mut self,
        instrument: InstrumentId,
        side: &str,
        qty: u32,
        price: Price,
    ) -> (r: Result<OrderRequest, String>)
        ensures
            final(self).next_order_id == id_after(old(self).next_order_id, 1),
            result_view(r) == match parsed_side(side@) {
                Ok(side) => Ok(
                    OrderRequest::SubmitLoc {
                        order_id: old(self).next_order_id,
                        instrument,
                        side,
                        qty,
                        price,
                    },
                ),
                Err(e) => Err(e),
            },
    {
        let order_id = self.take_id();
        match parse_side(side) {
            Ok(side) => Ok(OrderRequest::SubmitLoc { order_id, instrument, side, qty, price }),
            Err(e) => Err(e),
        }
    }

    /// A market order once a price is touched. The order id is used up even when the side is not known.
    pub fn submit_mit(
        &mut self,
        instrument: InstrumentId,
        side: &str,
        qty: u32,
        stop_price: Price,
    ) -> (r: Result<OrderRequest, String>)
        ensures
            final(self).next_order_id == id_after(old(self).next_order_id, 1),
            result_view(r) == match parsed_side(side@) {
                Ok(side) => Ok(
                    OrderRequest::SubmitMit {
                        order_id: old(self).next_order_id,
                        instrument,
                        side,
                        qty,
                        stop_price,
                    },
                ),
                Err(e) => Err(e),
            },
    {
        let order_id = self.take_id();
        match parse_side(side) {
            Ok(side) => Ok(OrderRequest::SubmitMit { order_id, instrument, side, qty, stop_price }),
            Err(e) => Err(e),
        }
    }

    /// A limit order once a price is touched. The order id is used up even when the side is not known.
    pub fn submit_lit(
        &mut self,
        instrument: InstrumentId,
        side: &str,
        qty: u32,
        price: Price,
        stop_price: Price,
    ) -> (r: Result<OrderRequest, String>)
        ensures
            final(self).next_order_id == id_after(old(self).next_order_id, 1),
            result_view(r) == match parsed_side(side@) {
                Ok(side) => Ok(
                    OrderRequest::SubmitLit {
                        order_id: old(self).next_order_id,
                        instrument,
                        side,
                        qty,
                        price,
                        stop_price,
                    },
                ),
                Err(e) => Err(e),
            },
    {
        let order_id = self.take_id();
        match parse_side(side) {
            Ok(side) => Ok(OrderRequest::SubmitLit { order_id, instrument, side, qty, price, stop_price }),
            Err(e) => Err(e),
        }
    }

    /// An order pegged to the best price on its own side. The order id is used up even when the side is not known.
    pub fn submit_rel(
        &mut self,
        instrument: InstrumentId,
        side: &str,
        qty: u32,
        offset: Price,
    ) -> (r: Result<OrderRequest, String>)
        ensures
            final(self).next_order_id == id_after(old(self).next_order_id, 1),
            result_view(r) == match parsed_side(side@) {
                Ok(side) => Ok(
                    OrderRequest::SubmitRel {
                        order_id: old(self).next_order_id,
                        instrument,
                        side,
                        qty,
                        offset,
                    },
                ),
                Err(e) => Err(e),
            },
    {
        let order_id = self.take_id();
        match parse_side(side) {
            Ok(side) => Ok(OrderRequest::SubmitRel { order_id, instrument, side, qty, offset }),
            Err(e) => Err(e),
        }
    }

    /// A limit order for the opening auction. The order id is used up even when the side is not known.
    pub fn submit_limit_opg(
        &mut self,
        instrument: InstrumentId,
        side: &str,
        qty: u32,
        price: Price,
    ) -> (r: Result<OrderRequest, String>)
        ensures
            final(self).next_order_id == id_after(old(self).next_order_id, 1),
            result_view(r) == match parsed_side(side@) {
                Ok(side) => Ok(
                    OrderRequest::SubmitLimitOpg {
                        order_id: old(self).next_order_id,
                        instrument,
                        side,
                        qty,
                        price,
                    },
                ),
                Err(e) => Err(e),
            },
    {
        let order_id = self.take_id();
        match parse_side(side) {
            Ok(side) => Ok(OrderRequest::SubmitLimitOpg { order_id, instrument, side, qty, price }),
            Err(e) => Err(e),
        }
    }

    /// A bracket: an order to enter, one to take a profit and one to stop a loss. Three order
    /// ids are used up even when the side is not known.
    pub fn submit_bracket(
        &mut self,
        instrument: InstrumentId,
        side: &str,
        qty: u32,
        entry_price: Price,
        take_profit: Price,
        stop_loss: Price,
    ) -> (r: Result<OrderRequest, String>)
        ensures
            final(self).next_order_id == id_after(old(self).next_order_id, 3),
            result_view(r) == match parsed_side(side@) {
                Ok(side) => Ok(
                    OrderRequest::SubmitBracket {
                        parent_id: old(self).next_order_id,
                        tp_id: id_after(old(self).next_order_id, 1),
                        sl_id: id_after(old(self).next_order_id, 2),
                        instrument,
                        side,
                        qty,
                        entry_price,
                        take_profit,
                        stop_loss,
                    },
                ),
                Err(e) => Err(e),
            },
    {
        let parent_id = self.take_id();
        let tp_id = self.take_id();
        let sl_id = self.take_id();
        match parse_side(side) {
            Ok(side) => Ok(
                OrderRequest::SubmitBracket {
                    parent_id,
                    tp_id,
                    sl_id,
                    instrument,
                    side,
                    qty,
                    entry_price,
                    take_profit,
                    stop_loss,
                },
            ),
            Err(e) => Err(e),
        }
    }

    /// A limit order with a time in force and attributes. The order id is used up even when
    /// the side or the time in force is not known.
    pub fn submit_limit_ex(
        &mut self,
        instrument: InstrumentId,
        side: &str,
        qty: u32,
        price: Price,
        tif: &str,
        attrs: OrderAttrs,
    ) -> (r: Result<OrderRequest, String>)
        ensures
            final(self).next_order_id == id_after(old(self).next_order_id, 1),
            result_view(r) == match (parsed_side(side@), parsed_tif(tif@)) {
                (Err(e), _) => Err(e),
                (Ok(_), Err(e)) => Err(e),
                (Ok(side), Ok(tif)) => Ok(
                    OrderRequest::SubmitLimitEx {
                        order_id: old(self).next_order_id,
                        instrument,
                        side,
                        qty,
                        price,
                        tif,
                        attrs,
                    },
                ),
            },
    {
        let order_id = self.take_id();
        match parse_side(side) {
            Ok(side) => match parse_tif(tif) {
                Ok(tif) => Ok(
                    OrderRequest::SubmitLimitEx {
                        order_id,
                        instrument,
                        side,
                        qty,
                        price,
                        tif,
                        attrs,
                    },
                ),
                Err(e) => Err(e),
            },
            Err(e) => Err(e),
        }
    }

    /// An adaptive limit order that is good for the day. The order id is used up even when the
    /// side or the priority is not known.
    pub fn submit_adaptive(
        &mut self,
        instrument: InstrumentId,
        side: &str,
        qty: u32,
        price: Price,
        priority: &str,
        attrs: OrderAttrs,
    ) -> (r: Result<OrderRequest, String>)
        ensures
            final(self).next_order_id == id_after(old(self).next_order_id, 1),
            result_view(r) == match (parsed_side(side@), parsed_priority(priority@)) {
                (Err(e), _) => Err(e),
                (Ok(_), Err(e)) => Err(e),
                (Ok(side), Ok(priority)) => Ok(
                    OrderRequest::SubmitAdaptive {
                        order_id: old(self).next_order_id,
                        instrument,
                        side,
                        qty,
                        price,
                        priority,
                        tif: 48,
                        attrs,
                    },
                ),
            },
    {
        let order_id = self.take_id();
        match parse_side(side) {
            Ok(side) => match parse_priority(priority) {
                Ok(priority) => Ok(
                    OrderRequest::SubmitAdaptive {
                        order_id,
                        instrument,
                        side,
                        qty,
                        price,
                        priority,
                        tif: 48,
                        attrs,
                    },
                ),
                Err(e) => Err(e),
            },
            Err(e) => Err(e),
        }
    }

    /// A change of an order to a limit order that is good for the day, under a new order id.
    pub fn modify(&mut self, order_id: OrderId, price: Price, qty: u32, attrs: OrderAttrs) -> (r:
        OrderRequest)
        ensures
            final(self).next_order_id == id_after(old(self).next_order_id, 1),
            r == (OrderRequest::Modify {
                new_order_id: old(self).next_order_id,
                order_id,
                qty,
                kind: OrderKind::Limit { price },
                tif: 48,
                attrs,
            }),
    {
        let new_order_id = self.take_id();
        OrderRequest::Modify {
            new_order_id,
            order_id,
            qty,
            kind: OrderKind::Limit { price },
            tif: 48,
            attrs,
        }
    }
}

/// No two orders have the same id: within as many steps as there are ids, each is given out
/// once.
pub proof fn law_ids_are_unique(id: OrderId, a: int, b: int)
    requires
        0 <= a < b < 0x1_0000_0000_0000_0000,
    ensures
        id_after(id, a) != id_after(id, b),
{
    let m = 0x1_0000_0000_0000_0000int;
    if (id + a) % m == (id + b) % m {
        vstd::arithmetic::div_mod::lemma_fundamental_div_mod(id + a, m);
        vstd::arithmetic::div_mod::lemma_fundamental_div_mod(id + b, m);
        let q = (id + b) / m - (id + a) / m;
        assert(b - a == m * q) by (nonlinear_arith)
            requires
                id + a == m * ((id + a) / m) + (id + a) % m,
                id + b == m * ((id + b) / m) + (id + b) % m,
                (id + a) % m == (id + b) % m,
                q == (id + b) / m - (id + a) / m,
        ;
        assert(false) by (nonlinear_arith)
            requires
                b - a == m * q,
                0 < b - a < m,
                m > 0,
        ;
    }
}

} // verus!
