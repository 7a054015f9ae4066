//! What orders say: values, conditions, attributes, types and algorithms, as fields of messages.
use vstd::prelude::*;

use crate::calendar::{time_text, unix_to_ib_datetime, unix_to_ib_utc_dash};
use crate::engine::order::{
    adjusted_code, risk_name, AdjustedOrderType, AlgoParams, OrderAttrs, OrderCondition, OrderKind,
    Side,
};
use crate::protocol::fix::Fields;
use crate::text::{
    dec, dec_fixed, dec_padded, eq_ignore_ascii_case, eq_ignoring_ascii_case, format_fixed,
    format_int, format_padded, format_uint, int_text, join, string_texts, text_eq,
};
use crate::types::{
    format_price, price_text, Price, ORD_MIDPX, ORD_PEG_MID, ORD_PEG_MKT, ORD_SNAP_MID,
    ORD_SNAP_MKT, ORD_SNAP_PRI, ORD_STP_PRT,
};

verus! {

/// The fields of a message, as tags and values.
pub type FieldSeq = Seq<(u32, Seq<char>)>;

/// `s` with a field added when `on` holds.
pub open spec fn add_if(s: FieldSeq, on: bool, tag: u32, value: Seq<char>) -> FieldSeq {
    if on {
        s.push((tag, value))
    } else {
        s
    }
}

// ---------------------------------------------------------------------------------------
// Values
// ---------------------------------------------------------------------------------------

/// The code of a side.
pub open spec fn side_code(side: Side) -> Seq<char> {
    match side {
        Side::Buy => "1"@,
        Side::Sell => "2"@,
        Side::ShortSell => "5"@,
    }
}

/// The code of a side.
pub fn fix_side(side: Side) -> (r: &'static str)
    ensures
        r@ == side_code(side),
{
    match side {
        Side::Buy => "1",
        Side::Sell => "2",
        Side::ShortSell => "5",
    }
}

/// The side that closes a position opened on a side.
pub open spec fn exit_side(side: Side) -> Side {
    match side {
        Side::Buy => Side::Sell,
        _ => Side::Buy,
    }
}

/// The name of a group type: 3, the default, for a code other than 1 to 4.
pub open spec fn oca_type_name(oca_type: u8) -> Seq<char> {
    if oca_type == 1 {
        "CancelOnFillWBlock"@
    } else if oca_type == 2 {
        "ReduceOnFillWBlock"@
    } else if oca_type == 4 {
        "ReduceOnFillWBlockFromTotal"@
    } else {
        "ReduceOnFillNonBlock"@
    }
}

/// The name of a group type: 3, the default, for a code other than 1 to 4.
pub fn oca_type_str(oca_type: u8) -> (r: &'static str)
    ensures
        r@ == oca_type_name(oca_type),
{
    if oca_type == 1 {
        "CancelOnFillWBlock"
    } else if oca_type == 2 {
        "ReduceOnFillWBlock"
    } else if oca_type == 4 {
        "ReduceOnFillWBlockFromTotal"
    } else {
        "ReduceOnFillNonBlock"
    }
}

/// A time-in-force code as text; `0` for a code that is no ASCII character.
pub open spec fn tif_text(tif: u8) -> Seq<char> {
    if tif < 128 {
        seq![tif as char]
    } else {
        seq!['0']
    }
}

/// A time-in-force code as text; `0` for a code that is no ASCII character.
pub fn tif_str(tif: u8) -> (r: String)
    ensures
        r@ == tif_text(tif),
{
    let mut out = String::new();
    out.push(
        if tif < 128 {
            tif as char
        } else {
            '0'
        },
    );
    proof {
        assert(out@ =~= tif_text(tif));
    }
    out
}

/// Hundredths of a percent as a percentage with two decimals.
pub open spec fn percent_text(pct: u32) -> Seq<char> {
    dec(pct as nat / 100).push('.') + dec_fixed(pct as nat % 100, 2)
}

pub(crate) fn percent_str(pct: u32) -> (r: String)
    ensures
        r@ == percent_text(pct),
{
    let mut out = format_uint((pct / 100) as u64);
    out.push('.');
    out.append(format_fixed((pct % 100) as u64, 2).as_str());
    out
}

/// `1` or `0`.
pub open spec fn flag_text(on: bool) -> Seq<char> {
    if on {
        "1"@
    } else {
        "0"@
    }
}

pub(crate) fn flag(on: bool) -> (r: &'static str)
    ensures
        r@ == flag_text(on),
{
    if on {
        "1"
    } else {
        "0"
    }
}

// ---------------------------------------------------------------------------------------
// Conditions
// ---------------------------------------------------------------------------------------

/// The exchange of a price condition: `BEST` for the smart router.
pub open spec fn condition_exchange_text(exchange: Seq<char>) -> Seq<char> {
    if eq_ignoring_ascii_case(exchange, "SMART"@) {
        "BEST"@
    } else {
        exchange
    }
}

/// The exchange of a price condition: `BEST` for the smart router.
pub fn condition_exchange(exchange: &str) -> (r: String)
    ensures
        r@ == condition_exchange_text(exchange@),
{
    if eq_ignore_ascii_case(exchange, "SMART") {
        "BEST".to_owned()
    } else {
        exchange.to_owned()
    }
}

/// The operator of a condition.
pub open spec fn operator_text(is_more: bool) -> Seq<char> {
    if is_more {
        ">="@
    } else {
        "<="@
    }
}

fn operator(is_more: bool) -> (r: &'static str)
    ensures
        r@ == operator_text(is_more),
{
    if is_more {
        ">="
    } else {
        "<="
    }
}

/// The execution that a condition waits for.
pub open spec fn execution_text(
    symbol: Seq<char>,
    exchange: Seq<char>,
    sec_type: Seq<char>,
) -> Seq<char> {
    "symbol="@ + symbol + ";exchange="@ + (if exchange == "SMART"@ {
        "*"@
    } else {
        exchange
    }) + ";securityType="@ + sec_type + ";"@
}

fn execution_str(symbol: &str, exchange: &str, sec_type: &str) -> (r: String)
    ensures
        r@ == execution_text(symbol@, exchange@, sec_type@),
{
    let mut out = "symbol=".to_owned();
    out.append(symbol);
    out.append(";exchange=");
    out.append(
        if text_eq(exchange, "SMART") {
            "*"
        } else {
            exchange
        },
    );
    out.append(";securityType=");
    out.append(sec_type);
    out.append(";");
    out
}

/// The eleven values of a condition: type, conjunction, operator, contract id, exchange,
/// trigger method, price, time, percent, volume and execution. The last condition of an order
/// has the conjunction `n`, the others `a`. The exchange of a price condition is written as the
/// server's router knows it when `routed`, and as it is otherwise.
pub open spec fn condition_texts(cond: OrderCondition, is_last: bool, routed: bool) -> Seq<
    Seq<char>,
> {
    let none = Seq::<char>::empty();
    let conj = if is_last {
        "n"@
    } else {
        "a"@
    };
    match cond {
        OrderCondition::Price { con_id, exchange, price, is_more, trigger_method } => seq![
            "1"@,
            conj,
            operator_text(is_more),
            int_text(con_id as int),
            if routed {
                condition_exchange_text(exchange@)
            } else {
                exchange@
            },
            dec(trigger_method as nat),
            price_text(price as int),
            none,
            none,
            none,
            none,
        ],
        OrderCondition::Time { time, is_more } => seq![
            "3"@,
            conj,
            operator_text(is_more),
            none,
            none,
            none,
            none,
            time@,
            none,
            none,
            none,
        ],
        OrderCondition::Margin { percent, is_more } => seq![
            "4"@,
            conj,
            operator_text(is_more),
            none,
            none,
            none,
            none,
            none,
            dec(percent as nat),
            none,
            none,
        ],
        OrderCondition::Execution { symbol, exchange, sec_type } => seq![
            "5"@,
            conj,
            none,
            none,
            none,
            none,
            none,
            none,
            none,
            none,
            execution_text(symbol@, exchange@, sec_type@),
        ],
        OrderCondition::Volume { con_id, exchange, volume, is_more } => seq![
            "6"@,
            conj,
            operator_text(is_more),
            int_text(con_id as int),
            exchange@,
            none,
            none,
            none,
            none,
            int_text(volume as int),
            none,
        ],
        OrderCondition::PercentChange { con_id, exchange, percent, is_more } => seq![
            "7"@,
            conj,
            operator_text(is_more),
            int_text(con_id as int),
            exchange@,
            none,
            none,
            none,
            percent@,
            none,
            none,
        ],
    }
}

/// The values of the first `k` of the conditions `conds`.
pub open spec fn conditions_texts(conds: Seq<OrderCondition>, k: nat, routed: bool) -> Seq<
    Seq<char>,
>
    decreases k,
{
    if k == 0 {
        Seq::empty()
    } else {
        conditions_texts(conds, (k - 1) as nat, routed) + condition_texts(
            conds[k - 1],
            k == conds.len(),
            routed,
        )
    }
}

/// Adds a text to a list.
fn push_text(out: &mut Vec<String>, s: &str)
    ensures
        string_texts(final(out)@) == string_texts(old(out)@).push(s@),
{
    out.push(s.to_owned());
    proof {
        assert(string_texts(out@) =~= string_texts(old(out)@).push(s@));
    }
}

/// Adds the first three values of a condition.
fn push_condition_head(out: &mut Vec<String>, kind: &str, is_last: bool, op: &str)
    ensures
        string_texts(final(out)@) == string_texts(old(out)@).push(kind@).push(
            if is_last {
                "n"@
            } else {
                "a"@
            },
        ).push(op@),
{
    push_text(out, kind);
    push_text(
        out,
        if is_last {
            "n"
        } else {
            "a"
        },
    );
    push_text(out, op);
}

/// Adds `n` empty values.
fn push_blanks(out: &mut Vec<String>, n: usize)
    ensures
        string_texts(final(out)@) == string_texts(old(out)@) + Seq::new(
            n as nat,
            |i: int| Seq::<char>::empty(),
        ),
{
    let mut i: usize = 0;
    proof {
        assert(string_texts(out@) =~= string_texts(old(out)@) + Seq::new(
            0,
            |i: int| Seq::<char>::empty(),
        ));
        reveal_strlit("");
        assert(""@ =~= Seq::<char>::empty());
    }
    while i < n
        invariant
            i <= n,
            ""@ == Seq::<char>::empty(),
            string_texts(out@) == string_texts(old(out)@) + Seq::new(
                i as nat,
                |i: int| Seq::<char>::empty(),
            ),
        decreases n - i,
    {
        push_text(out, "");
        i = i + 1;
        proof {
            assert(string_texts(out@) =~= string_texts(old(out)@) + Seq::new(
                i as nat,
                |i: int| Seq::<char>::empty(),
            ));
        }
    }
}

/// Adds the eleven values of a condition.
fn push_condition(out: &mut Vec<String>, cond: &OrderCondition, is_last: bool, routed: bool)
    ensures
        string_texts(final(out)@) == string_texts(old(out)@) + condition_texts(
            *cond,
            is_last,
            routed,
        ),
{
    proof {
        reveal_strlit("");
        assert(""@ =~= Seq::<char>::empty());
    }
    match cond {
        OrderCondition::Price { con_id, exchange, price, is_more, trigger_method } => {
            push_condition_head(out, "1", is_last, operator(*is_more));
            push_text(out, format_int(*con_id).as_str());
            if routed {
                push_text(out, condition_exchange(exchange.as_str()).as_str());
            } else {
                push_text(out, exchange.as_str());
            }
            push_text(out, format_uint(*trigger_method as u64).as_str());
            push_text(out, format_price(*price).as_str());
            push_blanks(out, 4);
        },
        OrderCondition::Time { time, is_more } => {
            push_condition_head(out, "3", is_last, operator(*is_more));
            push_blanks(out, 4);
            push_text(out, time.as_str());
            push_blanks(out, 3);
        },
        OrderCondition::Margin { percent, is_more } => {
            push_condition_head(out, "4", is_last, operator(*is_more));
            push_blanks(out, 5);
            push_text(out, format_uint(*percent as u64).as_str());
            push_blanks(out, 2);
        },
        OrderCondition::Execution { symbol, exchange, sec_type } => {
            push_condition_head(out, "5", is_last, "");
            push_blanks(out, 7);
            push_text(
                out,
                execution_str(symbol.as_str(), exchange.as_str(), sec_type.as_str()).as_str(),
            );
        },
        OrderCondition::Volume { con_id, exchange, volume, is_more } => {
            push_condition_head(out, "6", is_last, operator(*is_more));
            push_text(out, format_int(*con_id).as_str());
            push_text(out, exchange.as_str());
            push_blanks(out, 4);
            push_text(out, format_int(*volume).as_str());
            push_blanks(out, 1);
        },
        OrderCondition::PercentChange { con_id, exchange, percent, is_more } => {
            push_condition_head(out, "7", is_last, operator(*is_more));
            push_text(out, format_int(*con_id).as_str());
            push_text(out, exchange.as_str());
            push_blanks(out, 3);
            push_text(out, percent.as_str());
            push_blanks(out, 2);
        },
    }
    proof {
        assert(string_texts(out@) =~= string_texts(old(out)@) + condition_texts(
            *cond,
            is_last,
            routed,
        ));
    }
}

/// The values of an order's conditions: their number, then eleven values for each.
pub fn build_condition_strings(conditions: &[OrderCondition]) -> (r: Vec<String>)
    ensures
        string_texts(r@) == seq![dec(conditions@.len())] + conditions_texts(
            conditions@,
            conditions@.len(),
            true,
        ),
{
    condition_strings(conditions, true)
}

/// The values of an order's conditions. The exchange of a price condition is written as the
/// server's router knows it when `routed`, and as it is otherwise.
pub fn condition_strings(conditions: &[OrderCondition], routed: bool) -> (r: Vec<String>)
    ensures
        string_texts(r@) == seq![dec(conditions@.len())] + conditions_texts(
            conditions@,
            conditions@.len(),
            routed,
        ),
{
    let mut out: Vec<String> = Vec::new();
    push_text(&mut out, format_uint(conditions.len() as u64).as_str());
    let mut i: usize = 0;
    proof {
        assert(string_texts(out@) =~= seq![dec(conditions@.len())] + conditions_texts(
            conditions@,
            0,
            routed,
        ));
    }
    while i < conditions.len()
        invariant
            i <= conditions.len(),
            string_texts(out@) == seq![dec(conditions@.len())] + conditions_texts(
                conditions@,
                i as nat,
                routed,
            ),
        decreases conditions.len() - i,
    {
        push_condition(&mut out, &conditions[i], i == conditions.len() - 1, routed);
        i = i + 1;
        proof {
            assert(string_texts(out@) =~= seq![dec(conditions@.len())] + conditions_texts(
                conditions@,
                i as nat,
                routed,
            ));
        }
    }
    out
}

/// The values of `k` conditions are eleven times as many.
pub proof fn lemma_conditions_len(conds: Seq<OrderCondition>, k: nat, routed: bool)
    requires
        k <= conds.len(),
    ensures
        conditions_texts(conds, k, routed).len() == 11 * k,
    decreases k,
{
    if k > 0 {
        lemma_conditions_len(conds, (k - 1) as nat, routed);
    }
}

/// The values of the `i`-th condition stand at `11 * i` among those of all.
proof fn lemma_condition_at(conds: Seq<OrderCondition>, k: nat, routed: bool, i: int, j: int)
    requires
        k <= conds.len(),
        0 <= i < k,
        0 <= j < 11,
    ensures
        11 * i + j < conditions_texts(conds, k, routed).len(),
        conditions_texts(conds, k, routed)[11 * i + j] == condition_texts(
            conds[i],
            i == conds.len() - 1,
            routed,
        )[j],
    decreases k,
{
    lemma_conditions_len(conds, k, routed);
    lemma_conditions_len(conds, (k - 1) as nat, routed);
    if i < k - 1 {
        lemma_condition_at(conds, (k - 1) as nat, routed, i, j);
    }
}

/// The tags of a condition's values.
pub open spec fn condition_tags() -> Seq<u32> {
    seq![6222u32, 6137, 6126, 6123, 6124, 6127, 6125, 6223, 6245, 6263, 6246]
}

/// The fields of a condition, and an empty one behind them.
pub open spec fn condition_fields(cond: OrderCondition, is_last: bool) -> FieldSeq {
    value_fields(condition_texts(cond, is_last, true))
}

/// The fields of the first `k` conditions.
pub open spec fn conditions_fields(conds: Seq<OrderCondition>, k: nat) -> FieldSeq
    decreases k,
{
    if k == 0 {
        Seq::empty()
    } else {
        conditions_fields(conds, (k - 1) as nat) + condition_fields(conds[k - 1], k == conds.len())
    }
}

// ---------------------------------------------------------------------------------------
// Attributes
// ---------------------------------------------------------------------------------------

/// The name of an order's group: the given name, or one made of the group's number.
pub open spec fn oca_name(a: OrderAttrs) -> Seq<char> {
    if a.oca_group_str@.len() > 0 {
        a.oca_group_str@
    } else if a.oca_group > 0 {
        "OCA_"@ + dec(a.oca_group as nat)
    } else {
        Seq::empty()
    }
}

fn oca_name_of(a: &OrderAttrs) -> (r: String)
    ensures
        r@ == oca_name(*a),
{
    if !a.oca_group_str.as_str().is_empty() {
        a.oca_group_str.clone()
    } else if a.oca_group > 0 {
        join("OCA_", format_uint(a.oca_group).as_str())
    } else {
        String::new()
    }
}

/// `s` with the expiry of an order: a date under tag 432, or else a time under tag 126.
pub open spec fn with_expiry(s: FieldSeq, a: OrderAttrs) -> FieldSeq {
    if a.good_till_date_ymd > 0 {
        s.push((432u32, dec_padded(a.good_till_date_ymd as nat, 8)))
    } else if a.good_till > 0 {
        s.push((126u32, time_text(a.good_till as nat, '-')))
    } else {
        s
    }
}

pub(crate) fn put_expiry(fields: &mut Fields, a: &OrderAttrs)
    ensures
        final(fields)@ == with_expiry(old(fields)@, *a),
{
    if a.good_till_date_ymd > 0 {
        fields.put(432, format_padded(a.good_till_date_ymd as u64, 8));
    } else if a.good_till > 0 {
        fields.put(126, unix_to_ib_utc_dash(a.good_till as u64));
    }
}

/// `s` with an order's attributes up to its expiry.
pub open spec fn with_display_attrs(s: FieldSeq, a: OrderAttrs) -> FieldSeq {
    let s1 = add_if(s, a.display_size > 0, 111, dec(a.display_size as nat));
    let s2 = add_if(s1, a.min_qty > 0, 110, dec(a.min_qty as nat));
    let s3 = add_if(s2, a.outside_rth, 6433, "1"@);
    let s4 = add_if(s3, a.hidden, 6135, "1"@);
    let s5 = add_if(s4, a.good_after > 0, 168, time_text(a.good_after as nat, ' '));
    with_expiry(s5, a)
}

/// `s` with an order's group, parent and instructions. All-or-none rides the instruction
/// field, which an order type may take for itself.
pub open spec fn with_link_attrs(s: FieldSeq, a: OrderAttrs, has_base_exec_inst: bool) -> FieldSeq {
    let grouped = oca_name(a).len() > 0;
    let s1 = add_if(s, grouped, 583, oca_name(a));
    let s2 = add_if(s1, grouped, 6209, oca_type_name(a.oca_type));
    let s3 = add_if(s2, a.parent_id > 0, 6107, dec(a.parent_id as nat) + ".0"@);
    let s4 = add_if(s3, a.discretionary_amt > 0, 9813, price_text(a.discretionary_amt as int));
    let s5 = add_if(s4, a.sweep_to_fill, 6102, "1"@);
    let s6 = add_if(s5, a.all_or_none && !has_base_exec_inst, 18, "G"@);
    let s7 = add_if(s6, a.trigger_method > 0, 6115, dec(a.trigger_method as nat));
    add_if(s7, a.cash_qty > 0, 5920, price_text(a.cash_qty as int))
}

/// `s` with an order's conditions: whether they hold outside regular hours too and whether
/// they cancel the order, their number, and the conditions.
pub open spec fn with_conditions(s: FieldSeq, a: OrderAttrs) -> FieldSeq {
    let n = a.conditions@.len();
    if n == 0 {
        s
    } else {
        s.push((6128u32, flag_text(a.conditions_ignore_rth))).push(
            (6151u32, flag_text(a.conditions_cancel_order)),
        ).push((6136u32, dec(n))) + conditions_fields(a.conditions@, n)
    }
}

/// `s` with all attributes of an order.
#[verifier::opaque]
pub open spec fn with_attrs(s: FieldSeq, a: OrderAttrs, has_base_exec_inst: bool) -> FieldSeq {
    with_conditions(with_link_attrs(with_display_attrs(s, a), a, has_base_exec_inst), a)
}

/// The fields of the eleven values of a condition, and an empty one behind them.
pub open spec fn value_fields(values: Seq<Seq<char>>) -> FieldSeq {
    Seq::new(11, |j: int| (condition_tags()[j], values[j])).push((6947u32, Seq::<char>::empty()))
}

/// Adds the fields of the eleven values from `base` on.
fn put_condition(
    fields: &mut Fields,
    texts: &Vec<String>,
    base: usize,
    Ghost(values): Ghost<Seq<Seq<char>>>,
)
    requires
        base + 11 <= texts@.len() <= usize::MAX,
        forall|j: int| 0 <= j < 11 ==> #[trigger] string_texts(texts@)[base + j] == values[j],
    ensures
        final(fields)@ == old(fields)@ + value_fields(values),
{
    let ghost t = string_texts(texts@);
    proof {
        assert(t[base + 0] == values[0] && t[base + 1] == values[1] && t[base + 2] == values[2]);
        assert(t[base + 3] == values[3] && t[base + 4] == values[4] && t[base + 5] == values[5]);
        assert(t[base + 6] == values[6] && t[base + 7] == values[7] && t[base + 8] == values[8]);
        assert(t[base + 9] == values[9] && t[base + 10] == values[10]);
    }
    fields.put_str(6222, texts[base].as_str());
    fields.put_str(6137, texts[base + 1].as_str());
    fields.put_str(6126, texts[base + 2].as_str());
    fields.put_str(6123, texts[base + 3].as_str());
    fields.put_str(6124, texts[base + 4].as_str());
    fields.put_str(6127, texts[base + 5].as_str());
    fields.put_str(6125, texts[base + 6].as_str());
    fields.put_str(6223, texts[base + 7].as_str());
    fields.put_str(6245, texts[base + 8].as_str());
    fields.put_str(6263, texts[base + 9].as_str());
    fields.put_str(6246, texts[base + 10].as_str());
    fields.put(6947, String::new());
    proof {
        assert(fields@ =~= old(fields)@ + value_fields(values));
    }
}

/// Adds the fields of an order's conditions.
fn put_conditions(fields: &mut Fields, a: &OrderAttrs)
    ensures
        final(fields)@ == with_conditions(old(fields)@, *a),
{
    let n: usize = a.conditions.len();
    if n == 0 {
        return ;
    }
    let texts = build_condition_strings(a.conditions.as_slice());
    let ghost conds = a.conditions@;
    let ghost t = string_texts(texts@);
    fields.put_str(6128, flag(a.conditions_ignore_rth));
    fields.put_str(6151, flag(a.conditions_cancel_order));
    proof {
        lemma_conditions_len(conds, conds.len(), true);
        assert(t.len() == 1 + 11 * n);
        assert(t[0] == dec(conds.len()));
    }
    fields.put_str(6136, texts[0].as_str());
    let ghost head = fields@;
    proof {
        assert(head + conditions_fields(conds, 0) =~= head);
    }
    let total: usize = texts.len();
    let mut i: usize = 0;
    while i < n
        invariant
            i <= n,
            total == 1 + 11 * n,
            n == conds.len(),
            conds == a.conditions@,
            t == string_texts(texts@),
            t.len() == 1 + 11 * n,
            t == seq![dec(conds.len())] + conditions_texts(conds, conds.len(), true),
            fields@ == head + conditions_fields(conds, i as nat),
        decreases n - i,
    {
        proof {
            assert(11 * i + 11 <= 11 * n) by (nonlinear_arith)
                requires
                    i + 1 <= n,
            ;
            assert forall|j: int| 0 <= j < 11 implies #[trigger] t[1 + 11 * i + j]
                == condition_texts(conds[i as int], i == n - 1, true)[j] by {
                lemma_condition_at(conds, conds.len(), true, i as int, j);
            }
        }
        put_condition(
            fields,
            &texts,
            1 + 11 * i,
            Ghost(condition_texts(conds[i as int], i == n - 1, true)),
        );
        i = i + 1;
        proof {
            assert(fields@ =~= head + conditions_fields(conds, i as nat));
        }
    }
}

/// Adds the fields of an order's attributes. `has_base_exec_inst` says that the order type
/// takes the instruction field, which can then not say all-or-none too.
pub fn push_extended_attrs(fields: &mut Fields, attrs: &OrderAttrs, has_base_exec_inst: bool)
    ensures
        final(fields)@ == with_attrs(old(fields)@, *attrs, has_base_exec_inst),
{
    proof {
        reveal(with_attrs);
    }
    if attrs.display_size > 0 {
        fields.put_uint(111, attrs.display_size as u64);
    }
    if attrs.min_qty > 0 {
        fields.put_uint(110, attrs.min_qty as u64);
    }
    if attrs.outside_rth {
        fields.put_str(6433, "1");
    }
    if attrs.hidden {
        fields.put_str(6135, "1");
    }
    if attrs.good_after > 0 {
        fields.put(168, unix_to_ib_datetime(attrs.good_after as u64));
    }
    put_expiry(fields, attrs);
    proof {
        assert(fields@ == with_display_attrs(old(fields)@, *attrs));
    }
    let oca = oca_name_of(attrs);
    if !oca.as_str().is_empty() {
        fields.put(583, oca);
        fields.put_str(6209, oca_type_str(attrs.oca_type));
    }
    if attrs.parent_id > 0 {
        fields.put(6107, join(format_uint(attrs.parent_id).as_str(), ".0"));
    }
    if attrs.discretionary_amt > 0 {
        fields.put(9813, format_price(attrs.discretionary_amt));
    }
    if attrs.sweep_to_fill {
        fields.put_str(6102, "1");
    }
    if attrs.all_or_none && !has_base_exec_inst {
        fields.put_str(18, "G");
    }
    if attrs.trigger_method > 0 {
        fields.put_uint(6115, attrs.trigger_method as u64);
    }
    if attrs.cash_qty > 0 {
        fields.put(5920, format_price(attrs.cash_qty));
    }
    proof {
        assert(fields@ == with_link_attrs(
            with_display_attrs(old(fields)@, *attrs),
            *attrs,
            has_base_exec_inst,
        ));
    }
    put_conditions(fields, attrs);
}

// ---------------------------------------------------------------------------------------
// Order types
// ---------------------------------------------------------------------------------------

/// How an order of a type is tracked: its type byte, price and stop price.
pub open spec fn record_of(kind: OrderKind) -> (u8, Price, Price) {
    match kind {
        OrderKind::Market => (49, 0, 0),
        OrderKind::Limit { price } => (50, price, 0),
        OrderKind::Stop { stop_price } => (51, stop_price, stop_price),
        OrderKind::StopLimit { price, stop_price } => (52, price, stop_price),
        OrderKind::TrailingStop { .. } => (80, 0, 0),
        OrderKind::TrailingStopLimit { lmt_offset, .. } => (80, lmt_offset, 0),
        OrderKind::TrailPct { .. } => (80, 0, 0),
        OrderKind::Moc => (53, 0, 0),
        OrderKind::Loc { price } => (66, price, 0),
        OrderKind::Mit { stop_price } => (74, stop_price, stop_price),
        OrderKind::Lit { price, stop_price } => (75, price, stop_price),
        OrderKind::Mtl => (75, 0, 0),
        OrderKind::MktPrt => (85, 0, 0),
        OrderKind::StpPrt { stop_price } => (ORD_STP_PRT, 0, stop_price),
        OrderKind::MidPrice { price_cap } => (ORD_MIDPX, price_cap, 0),
        OrderKind::SnapMkt => (ORD_SNAP_MKT, 0, 0),
        OrderKind::SnapMid => (ORD_SNAP_MID, 0, 0),
        OrderKind::SnapPri => (ORD_SNAP_PRI, 0, 0),
        OrderKind::PegMkt { offset } => (ORD_PEG_MKT, 0, offset),
        OrderKind::PegMid { offset } => (ORD_PEG_MID, 0, offset),
        OrderKind::Rel { offset } => (82, 0, offset),
        OrderKind::AdjustableStop { stop_price, .. } => (51, 0, stop_price),
    }
}

pub(crate) fn tracked_as(kind: OrderKind) -> (r: (u8, Price, Price))
    ensures
        r == record_of(kind),
{
    match kind {
        OrderKind::Market => (49, 0, 0),
        OrderKind::Limit { price } => (50, price, 0),
        OrderKind::Stop { stop_price } => (51, stop_price, stop_price),
        OrderKind::StopLimit { price, stop_price } => (52, price, stop_price),
        OrderKind::TrailingStop { .. } => (80, 0, 0),
        OrderKind::TrailingStopLimit { lmt_offset, .. } => (80, lmt_offset, 0),
        OrderKind::TrailPct { .. } => (80, 0, 0),
        OrderKind::Moc => (53, 0, 0),
        OrderKind::Loc { price } => (66, price, 0),
        OrderKind::Mit { stop_price } => (74, stop_price, stop_price),
        OrderKind::Lit { price, stop_price } => (75, price, stop_price),
        OrderKind::Mtl => (75, 0, 0),
        OrderKind::MktPrt => (85, 0, 0),
        OrderKind::StpPrt { stop_price } => (ORD_STP_PRT, 0, stop_price),
        OrderKind::MidPrice { price_cap } => (ORD_MIDPX, price_cap, 0),
        OrderKind::SnapMkt => (ORD_SNAP_MKT, 0, 0),
        OrderKind::SnapMid => (ORD_SNAP_MID, 0, 0),
        OrderKind::SnapPri => (ORD_SNAP_PRI, 0, 0),
        OrderKind::PegMkt { offset } => (ORD_PEG_MKT, 0, offset),
        OrderKind::PegMid { offset } => (ORD_PEG_MID, 0, offset),
        OrderKind::Rel { offset } => (82, 0, offset),
        OrderKind::AdjustableStop { stop_price, .. } => (51, 0, stop_price),
    }
}

/// Whether an order type needs an exchange of its own, and does not go where its instrument's
/// orders go.
pub open spec fn is_directed(kind: OrderKind) -> bool {
    kind is MidPrice || kind is SnapMkt || kind is SnapMid || kind is SnapPri || kind is PegMkt
        || kind is PegMid
}

pub(crate) fn directed(kind: OrderKind) -> (r: bool)
    ensures
        r == is_directed(kind),
{
    match kind {
        OrderKind::MidPrice { .. } => true,
        OrderKind::SnapMkt => true,
        OrderKind::SnapMid => true,
        OrderKind::SnapPri => true,
        OrderKind::PegMkt { .. } => true,
        OrderKind::PegMid { .. } => true,
        _ => false,
    }
}

/// Whether an order type takes the instruction field for itself.
pub open spec fn takes_exec_inst(kind: OrderKind) -> bool {
    kind is TrailingStop || kind is TrailPct || kind is Rel
}

/// The order type code.
pub open spec fn type_code(kind: OrderKind) -> Seq<char> {
    match kind {
        OrderKind::Market => "1"@,
        OrderKind::Limit { .. } => "2"@,
        OrderKind::Stop { .. } => "3"@,
        OrderKind::StopLimit { .. } => "4"@,
        OrderKind::TrailingStop { .. } => "P"@,
        OrderKind::TrailPct { .. } => "P"@,
        OrderKind::TrailingStopLimit { .. } => "TSL"@,
        OrderKind::Moc => "5"@,
        OrderKind::Loc { .. } => "B"@,
        OrderKind::Mit { .. } => "J"@,
        OrderKind::Lit { .. } => "LT"@,
        OrderKind::Mtl => "K"@,
        OrderKind::MktPrt => "U"@,
        OrderKind::StpPrt { .. } => "SP"@,
        OrderKind::MidPrice { .. } => "MIDPX"@,
        OrderKind::SnapMkt => "SMKT"@,
        OrderKind::SnapMid => "SMID"@,
        OrderKind::SnapPri => "SREL"@,
        OrderKind::PegMkt { .. } => "E"@,
        OrderKind::PegMid { .. } => "E"@,
        OrderKind::Rel { .. } => "P"@,
        OrderKind::AdjustableStop { .. } => "3"@,
    }
}

pub(crate) fn type_code_of(kind: OrderKind) -> (r: &'static str)
    ensures
        r@ == type_code(kind),
{
    match kind {
        OrderKind::Market => "1",
        OrderKind::Limit { .. } => "2",
        OrderKind::Stop { .. } => "3",
        OrderKind::StopLimit { .. } => "4",
        OrderKind::TrailingStop { .. } => "P",
        OrderKind::TrailPct { .. } => "P",
        OrderKind::TrailingStopLimit { .. } => "TSL",
        OrderKind::Moc => "5",
        OrderKind::Loc { .. } => "B",
        OrderKind::Mit { .. } => "J",
        OrderKind::Lit { .. } => "LT",
        OrderKind::Mtl => "K",
        OrderKind::MktPrt => "U",
        OrderKind::StpPrt { .. } => "SP",
        OrderKind::MidPrice { .. } => "MIDPX",
        OrderKind::SnapMkt => "SMKT",
        OrderKind::SnapMid => "SMID",
        OrderKind::SnapPri => "SREL",
        OrderKind::PegMkt { .. } => "E",
        OrderKind::PegMid { .. } => "E",
        OrderKind::Rel { .. } => "P",
        OrderKind::AdjustableStop { .. } => "3",
    }
}

/// The order type of a new order, with its prices and what goes with them. A trail goes into
/// the stop field and the offset field; an initial stop, a price cap and a market peg's offset
/// only when they are set.
#[verifier::opaque]
pub open spec fn kind_fields(kind: OrderKind) -> FieldSeq {
    let s = seq![(40u32, type_code(kind))];
    match kind {
        OrderKind::Limit { price } => s.push((44u32, price_text(price as int))),
        OrderKind::Loc { price } => s.push((44u32, price_text(price as int))),
        OrderKind::Stop { stop_price } => s.push((99u32, price_text(stop_price as int))),
        OrderKind::Mit { stop_price } => s.push((99u32, price_text(stop_price as int))),
        OrderKind::StpPrt { stop_price } => s.push((99u32, price_text(stop_price as int))),
        OrderKind::AdjustableStop { stop_price, .. } => s.push(
            (99u32, price_text(stop_price as int)),
        ),
        OrderKind::StopLimit { price, stop_price } => s.push((44u32, price_text(price as int))).push(
            (99u32, price_text(stop_price as int)),
        ),
        OrderKind::Lit { price, stop_price } => s.push((44u32, price_text(price as int))).push(
            (99u32, price_text(stop_price as int)),
        ),
        OrderKind::TrailingStop { trail_amt, trail_stop_price } => add_if(
            s.push((99u32, price_text(trail_amt as int))).push(
                (211u32, price_text(trail_amt as int)),
            ).push((18u32, "a"@)),
            trail_stop_price > 0,
            6117,
            price_text(trail_stop_price as int),
        ),
        OrderKind::TrailingStopLimit { lmt_offset, trail_amt, trail_stop_price } => add_if(
            s.push((99u32, price_text(trail_amt as int))).push(
                (6370u32, price_text(lmt_offset as int)),
            ).push((211u32, price_text(trail_amt as int))),
            trail_stop_price > 0,
            6117,
            price_text(trail_stop_price as int),
        ),
        OrderKind::TrailPct { trail_pct, trail_stop_price } => add_if(
            s.push((99u32, percent_text(trail_pct))).push((211u32, percent_text(trail_pct))).push(
                (18u32, "a"@),
            ).push((6268u32, "100"@)),
            trail_stop_price > 0,
            6117,
            price_text(trail_stop_price as int),
        ),
        OrderKind::MidPrice { price_cap } => add_if(
            s,
            price_cap > 0,
            44,
            price_text(price_cap as int),
        ),
        OrderKind::PegMkt { offset } => add_if(s, offset > 0, 211, price_text(offset as int)),
        OrderKind::PegMid { offset } => add_if(
            s.push((8403u32, "0.0"@)).push((8404u32, "0.0"@)),
            offset > 0,
            211,
            price_text(offset as int),
        ),
        OrderKind::Rel { offset } => s.push((211u32, price_text(offset as int))).push(
            (18u32, "R"@),
        ),
        _ => s,
    }
}

/// Builds the order type fields of a new order.
pub(crate) fn build_kind_fields(kind: OrderKind) -> (f: Fields)
    ensures
        f@ == kind_fields(kind),
{
    proof {
        reveal(kind_fields);
    }
    let mut f = Fields::new();
    f.put_str(40, type_code_of(kind));
    proof {
        assert(f@ =~= seq![(40u32, type_code(kind))]);
    }
    match kind {
        OrderKind::Limit { price } => {
            f.put(44, format_price(price));
        },
        OrderKind::Loc { price } => {
            f.put(44, format_price(price));
        },
        OrderKind::Stop { stop_price } => {
            f.put(99, format_price(stop_price));
        },
        OrderKind::Mit { stop_price } => {
            f.put(99, format_price(stop_price));
        },
        OrderKind::StpPrt { stop_price } => {
            f.put(99, format_price(stop_price));
        },
        OrderKind::AdjustableStop { stop_price, .. } => {
            f.put(99, format_price(stop_price));
        },
        OrderKind::StopLimit { price, stop_price } => {
            f.put(44, format_price(price));
            f.put(99, format_price(stop_price));
        },
        OrderKind::Lit { price, stop_price } => {
            f.put(44, format_price(price));
            f.put(99, format_price(stop_price));
        },
        OrderKind::TrailingStop { trail_amt, trail_stop_price } => {
            f.put(99, format_price(trail_amt));
            f.put(211, format_price(trail_amt));
            f.put_str(18, "a");
            if trail_stop_price > 0 {
                f.put(6117, format_price(trail_stop_price));
            }
        },
        OrderKind::TrailingStopLimit { lmt_offset, trail_amt, trail_stop_price } => {
            f.put(99, format_price(trail_amt));
            f.put(6370, format_price(lmt_offset));
            f.put(211, format_price(trail_amt));
            if trail_stop_price > 0 {
                f.put(6117, format_price(trail_stop_price));
            }
        },
        OrderKind::TrailPct { trail_pct, trail_stop_price } => {
            f.put(99, percent_str(trail_pct));
            f.put(211, percent_str(trail_pct));
            f.put_str(18, "a");
            f.put_str(6268, "100");
            if trail_stop_price > 0 {
                f.put(6117, format_price(trail_stop_price));
            }
        },
        OrderKind::MidPrice { price_cap } => {
            if price_cap > 0 {
                f.put(44, format_price(price_cap));
            }
        },
        OrderKind::PegMkt { offset } => {
            if offset > 0 {
                f.put(211, format_price(offset));
            }
        },
        OrderKind::PegMid { offset } => {
            f.put_str(8403, "0.0");
            f.put_str(8404, "0.0");
            if offset > 0 {
                f.put(211, format_price(offset));
            }
        },
        OrderKind::Rel { offset } => {
            f.put(211, format_price(offset));
            f.put_str(18, "R");
        },
        _ => {},
    }
    f
}

/// The fields of an adjustable stop: that it is one, what it turns into, when and with which
/// stop; its limit when it has one; and for a trailing type the trail and its unit.
pub open spec fn adjustable_fields(
    trigger_price: Price,
    adjusted_order_type: AdjustedOrderType,
    adjusted_stop_price: Price,
    adjusted_stop_limit_price: Price,
    adjusted_trailing_amount: Price,
    adjustable_trailing_unit: i32,
) -> FieldSeq {
    let trails = adjusted_order_type == AdjustedOrderType::Trail || adjusted_order_type
        == AdjustedOrderType::TrailLimit;
    let s = seq![
        (6257u32, "1"@),
        (6261u32, adjusted_code(adjusted_order_type)),
        (6258u32, price_text(trigger_price as int)),
        (6259u32, price_text(adjusted_stop_price as int)),
    ];
    let s1 = add_if(
        s,
        adjusted_stop_limit_price > 0,
        6262,
        price_text(adjusted_stop_limit_price as int),
    );
    let s2 = add_if(s1, trails, 6260, price_text(adjusted_trailing_amount as int));
    add_if(s2, trails, 6269, int_text(adjustable_trailing_unit as int))
}

/// The fields of an adjustable stop.
pub fn adjustable_stop_tags(
    trigger_price: Price,
    adjusted_order_type: AdjustedOrderType,
    adjusted_stop_price: Price,
    adjusted_stop_limit_price: Price,
    adjusted_trailing_amount: Price,
    adjustable_trailing_unit: i32,
) -> (r: Fields)
    ensures
        r@ == adjustable_fields(
            trigger_price,
            adjusted_order_type,
            adjusted_stop_price,
            adjusted_stop_limit_price,
            adjusted_trailing_amount,
            adjustable_trailing_unit,
        ),
{
    let mut f = Fields::new();
    f.put_str(6257, "1");
    f.put_str(6261, adjusted_order_type.fix_code());
    f.put(6258, format_price(trigger_price));
    f.put(6259, format_price(adjusted_stop_price));
    proof {
        assert(f@ =~= seq![
            (6257u32, "1"@),
            (6261u32, adjusted_code(adjusted_order_type)),
            (6258u32, price_text(trigger_price as int)),
            (6259u32, price_text(adjusted_stop_price as int)),
        ]);
    }
    if adjusted_stop_limit_price > 0 {
        f.put(6262, format_price(adjusted_stop_limit_price));
    }
    if adjusted_order_type == AdjustedOrderType::Trail || adjusted_order_type
        == AdjustedOrderType::TrailLimit {
        f.put(6260, format_price(adjusted_trailing_amount));
        f.put(6269, format_int(adjustable_trailing_unit as i64));
    }
    f
}

/// What follows the common fields of a new order of a type.
#[verifier::opaque]
pub open spec fn kind_tail(kind: OrderKind) -> FieldSeq {
    match kind {
        OrderKind::AdjustableStop {
            trigger_price,
            adjusted_order_type,
            adjusted_stop_price,
            adjusted_stop_limit_price,
            adjusted_trailing_amount,
            adjustable_trailing_unit,
            ..
        } => adjustable_fields(
            trigger_price,
            adjusted_order_type,
            adjusted_stop_price,
            adjusted_stop_limit_price,
            adjusted_trailing_amount,
            adjustable_trailing_unit,
        ),
        _ => Seq::empty(),
    }
}

pub(crate) fn build_kind_tail(kind: OrderKind) -> (r: Fields)
    ensures
        r@ == kind_tail(kind),
{
    proof {
        reveal(kind_tail);
    }
    match kind {
        OrderKind::AdjustableStop {
            trigger_price,
            adjusted_order_type,
            adjusted_stop_price,
            adjusted_stop_limit_price,
            adjusted_trailing_amount,
            adjustable_trailing_unit,
            ..
        } => adjustable_stop_tags(
            trigger_price,
            adjusted_order_type,
            adjusted_stop_price,
            adjusted_stop_limit_price,
            adjusted_trailing_amount,
            adjustable_trailing_unit,
        ),
        _ => Fields::new(),
    }
}

// ---------------------------------------------------------------------------------------
// Algorithms
// ---------------------------------------------------------------------------------------

/// The name of an algorithm.
pub open spec fn algo_name(algo: AlgoParams) -> Seq<char> {
    match algo {
        AlgoParams::Vwap { .. } => "Vwap"@,
        AlgoParams::Twap { .. } => "Twap"@,
        AlgoParams::ArrivalPx { .. } => "ArrivalPx"@,
        AlgoParams::ClosePx { .. } => "ClosePx"@,
        AlgoParams::DarkIce { .. } => "DarkIce"@,
        AlgoParams::PctVol { .. } => "PctVol"@,
    }
}

/// The parameters of an algorithm: names and values, in turn.
pub open spec fn algo_params(algo: AlgoParams) -> Seq<Seq<char>> {
    match algo {
        AlgoParams::Vwap { no_take_liq, allow_past_end_time, start_time, end_time, .. } => seq![
            "noTakeLiq"@,
            flag_text(no_take_liq),
            "allowPastEndTime"@,
            flag_text(allow_past_end_time),
            "startTime"@,
            start_time@,
            "endTime"@,
            end_time@,
        ],
        AlgoParams::Twap { allow_past_end_time, start_time, end_time } => seq![
            "allowPastEndTime"@,
            flag_text(allow_past_end_time),
            "startTime"@,
            start_time@,
            "endTime"@,
            end_time@,
        ],
        AlgoParams::ArrivalPx {
            risk_aversion,
            allow_past_end_time,
            force_completion,
            start_time,
            end_time,
            ..
        } => seq![
            "riskAversion"@,
            risk_name(risk_aversion),
            "allowPastEndTime"@,
            flag_text(allow_past_end_time),
            "forceCompletion"@,
            flag_text(force_completion),
            "startTime"@,
            start_time@,
            "endTime"@,
            end_time@,
        ],
        AlgoParams::ClosePx { risk_aversion, force_completion, start_time, .. } => seq![
            "riskAversion"@,
            risk_name(risk_aversion),
            "forceCompletion"@,
            flag_text(force_completion),
            "startTime"@,
            start_time@,
        ],
        AlgoParams::DarkIce { allow_past_end_time, display_size, start_time, end_time } => seq![
            "allowPastEndTime"@,
            flag_text(allow_past_end_time),
            "displaySize"@,
            dec(display_size as nat),
            "startTime"@,
            start_time@,
            "endTime"@,
            end_time@,
        ],
        AlgoParams::PctVol { pct_vol, no_take_liq, start_time, end_time } => seq![
            "noTakeLiq"@,
            flag_text(no_take_liq),
            "pctVol"@,
            pct_vol@,
            "startTime"@,
            start_time@,
            "endTime"@,
            end_time@,
        ],
    }
}

/// Adds a parameter's name and value.
fn push_param(out: &mut Vec<String>, name: &str, value: &str)
    ensures
        string_texts(final(out)@) == string_texts(old(out)@).push(name@).push(value@),
{
    push_text(out, name);
    push_text(out, value);
}

/// The name of an algorithm, and the names and values of its parameters, in turn.
pub fn build_algo_tags(algo: &AlgoParams) -> (r: (&'static str, Vec<String>))
    ensures
        r.0@ == algo_name(*algo),
        string_texts(r.1@) == algo_params(*algo),
{
    let mut out: Vec<String> = Vec::new();
    let name = match algo {
        AlgoParams::Vwap { no_take_liq, allow_past_end_time, start_time, end_time, .. } => {
            push_param(&mut out, "noTakeLiq", flag(*no_take_liq));
            push_param(&mut out, "allowPastEndTime", flag(*allow_past_end_time));
            push_param(&mut out, "startTime", start_time.as_str());
            push_param(&mut out, "endTime", end_time.as_str());
            "Vwap"
        },
        AlgoParams::Twap { allow_past_end_time, start_time, end_time } => {
            push_param(&mut out, "allowPastEndTime", flag(*allow_past_end_time));
            push_param(&mut out, "startTime", start_time.as_str());
            push_param(&mut out, "endTime", end_time.as_str());
            "Twap"
        },
        AlgoParams::ArrivalPx {
            risk_aversion,
            allow_past_end_time,
            force_completion,
            start_time,
            end_time,
            ..
        } => {
            push_param(&mut out, "riskAversion", risk_aversion.as_str());
            push_param(&mut out, "allowPastEndTime", flag(*allow_past_end_time));
            push_param(&mut out, "forceCompletion", flag(*force_completion));
            push_param(&mut out, "startTime", start_time.as_str());
            push_param(&mut out, "endTime", end_time.as_str());
            "ArrivalPx"
        },
        AlgoParams::ClosePx { risk_aversion, force_completion, start_time, .. } => {
            push_param(&mut out, "riskAversion", risk_aversion.as_str());
            push_param(&mut out, "forceCompletion", flag(*force_completion));
            push_param(&mut out, "startTime", start_time.as_str());
            "ClosePx"
        },
        AlgoParams::DarkIce { allow_past_end_time, display_size, start_time, end_time } => {
            push_param(&mut out, "allowPastEndTime", flag(*allow_past_end_time));
            push_param(&mut out, "displaySize", format_uint(*display_size as u64).as_str());
            push_param(&mut out, "startTime", start_time.as_str());
            push_param(&mut out, "endTime", end_time.as_str());
            "DarkIce"
        },
        AlgoParams::PctVol { pct_vol, no_take_liq, start_time, end_time } => {
            push_param(&mut out, "noTakeLiq", flag(*no_take_liq));
            push_param(&mut out, "pctVol", pct_vol.as_str());
            push_param(&mut out, "startTime", start_time.as_str());
            push_param(&mut out, "endTime", end_time.as_str());
            "PctVol"
        },
    };
    proof {
        assert(string_texts(out@) =~= algo_params(*algo));
    }
    (name, out)
}

/// The share of volume that an algorithm may take at most, for those that have one.
pub open spec fn max_pct_vol_of(algo: AlgoParams) -> Option<Seq<char>> {
    match algo {
        AlgoParams::Vwap { max_pct_vol, .. } => Some(max_pct_vol@),
        AlgoParams::ArrivalPx { max_pct_vol, .. } => Some(max_pct_vol@),
        AlgoParams::ClosePx { max_pct_vol, .. } => Some(max_pct_vol@),
        _ => None,
    }
}

/// How many of the first `k` parameters have a value.
pub open spec fn set_params(params: Seq<Seq<char>>, k: nat) -> nat
    decreases k,
{
    if k == 0 {
        0
    } else {
        set_params(params, (k - 1) as nat) + (if params[2 * (k - 1) + 1].len() > 0 {
            1nat
        } else {
            0
        })
    }
}

/// The fields of those of the first `k` parameters that have a value.
pub open spec fn param_fields(params: Seq<Seq<char>>, k: nat) -> FieldSeq
    decreases k,
{
    if k == 0 {
        Seq::empty()
    } else {
        let s = param_fields(params, (k - 1) as nat);
        let i = 2 * (k - 1);
        if params[i + 1].len() > 0 {
            s.push((5958u32, params[i])).push((5960u32, params[i + 1]))
        } else {
            s
        }
    }
}

/// `s` with an algorithm: its name, its share of volume, how many of its parameters have a
/// value, and those.
#[verifier::opaque]
pub open spec fn with_algo(s: FieldSeq, algo: AlgoParams) -> FieldSeq {
    let params = algo_params(algo);
    let n = (params.len() / 2) as nat;
    let s1 = s.push((847u32, algo_name(algo)));
    let s2 = match max_pct_vol_of(algo) {
        Some(v) => s1.push((849u32, v)),
        None => s1,
    };
    s2.push((5957u32, dec(set_params(params, n)))) + param_fields(params, n)
}

pub(crate) fn put_algo(fields: &mut Fields, algo: &AlgoParams)
    ensures
        final(fields)@ == with_algo(old(fields)@, *algo),
{
    proof {
        reveal(with_algo);
    }
    let (name, params) = build_algo_tags(algo);
    fields.put_str(847, name);
    match algo {
        AlgoParams::Vwap { max_pct_vol, .. } => {
            fields.put_str(849, max_pct_vol.as_str());
        },
        AlgoParams::ArrivalPx { max_pct_vol, .. } => {
            fields.put_str(849, max_pct_vol.as_str());
        },
        AlgoParams::ClosePx { max_pct_vol, .. } => {
            fields.put_str(849, max_pct_vol.as_str());
        },
        _ => {},
    }
    let ghost p = string_texts(params@);
    let total: usize = params.len();
    let n: usize = total / 2;
    proof {
        assert(p.len() == params@.len());
        assert(p == algo_params(*algo));
    }
    let mut set: u64 = 0;
    let mut i: usize = 0;
    let mut pairs = Fields::new();
    while i < n
        invariant
            i <= n,
            2 * n <= total,
            total == params@.len(),
            p == string_texts(params@),
            set == set_params(p, i as nat),
            set <= i,
            pairs@ == param_fields(p, i as nat),
        decreases n - i,
    {
        proof {
            assert(p[2 * i] == params@[2 * i]@);
            assert(p[2 * i + 1] == params@[2 * i + 1]@);
        }
        if !params[2 * i + 1].as_str().is_empty() {
            set = set + 1;
            pairs.put_str(5958, params[2 * i].as_str());
            pairs.put_str(5960, params[2 * i + 1].as_str());
        }
        i = i + 1;
    }
    fields.put_uint(5957, set);
    fields.put_all(&pairs);
}

} // verus!
