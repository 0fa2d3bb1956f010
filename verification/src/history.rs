//! Trades of earlier runs: rows of the database and lines of the old trade file.

use crate::decimal::Dec;
use crate::lists::ring_pushed;
use crate::side::Side;
use crate::text::{contains, contains_text};
use crate::trader::{EntryType, SharedState, Tally, TradeRecord};
use crate::words::{number_in, pieces, read_number, split, views};
use vstd::prelude::*;

verus! {

/// How many trades of the old file are kept.
pub const FILE_TRADES_KEPT: usize = 50;

/// How many fields a line of the old file has at least.
pub const FILE_FIELDS: usize = 10;

// ---------------------------------------------------------------------------
// Times
// ---------------------------------------------------------------------------

/// The time that `DateTime::parse_from_str` reads in a text by a format, in
/// milliseconds since 1970; nothing where it reads none.
pub uninterp spec fn zoned_millis(text: Seq<char>, format: Seq<char>) -> Option<i64>;

/// The time that `NaiveDateTime::parse_from_str` reads in a text by a format, in
/// milliseconds since 1970 as if in UTC; nothing where it reads none.
pub uninterp spec fn naive_millis(text: Seq<char>, format: Seq<char>) -> Option<i64>;

/// `chrono::DateTime::parse_from_str`, and `timestamp_millis` of what it reads.
/// The result is named; it depends on text and format alone.
#[verifier::external_body]
fn parse_zoned_time(text: &str, format: &str) -> (r: Option<i64>)
    ensures
        r == zoned_millis(text@, format@),
{
    match chrono::DateTime::parse_from_str(text, format) {
        Ok(time) => Some(time.timestamp_millis()),
        Err(_) => None,
    }
}

/// `chrono::NaiveDateTime::parse_from_str`, and `timestamp_millis` of what it
/// reads taken as UTC.  The result is named; it depends on text and format
/// alone.
#[verifier::external_body]
fn parse_naive_time(text: &str, format: &str) -> (r: Option<i64>)
    ensures
        r == naive_millis(text@, format@),
{
    match chrono::NaiveDateTime::parse_from_str(text, format) {
        Ok(time) => Some(time.and_utc().timestamp_millis()),
        Err(_) => None,
    }
}

/// A time that was read, or now.
pub open spec fn time_or_now(read: Option<i64>, now_ms: i64) -> i64 {
    match read {
        Some(t) => t,
        None => now_ms,
    }
}

/// Takes a time that was read, or now.
pub fn read_or_now(read: Option<i64>, now_ms: i64) -> (r: i64)
    ensures
        r == time_or_now(read, now_ms),
{
    match read {
        Some(t) => t,
        None => now_ms,
    }
}

/// Reads the time of a row; now where it cannot be read.
pub fn row_time(time_text: &str, now_ms: i64) -> (r: i64)
    ensures
        r == time_or_now(zoned_millis(time_text@ + " +0000"@, "%Y-%m-%d %H:%M:%S%.3f %z"@), now_ms),
{
    let text = time_text.to_owned().concat(" +0000");
    read_or_now(parse_zoned_time(text.as_str(), "%Y-%m-%d %H:%M:%S%.3f %z"), now_ms)
}

// ---------------------------------------------------------------------------
// Rows of the database
// ---------------------------------------------------------------------------

/// A trade as the database holds it.
#[derive(Debug)]
pub struct TradeRow {
    /// When it was completed, in milliseconds since 1970.
    pub time_ms: i64,
    pub side_text: String,
    pub entry_price: Dec,
    pub exit_price: Dec,
    /// Profit per share.
    pub pnl: Dec,
    pub hold_ms: u64,
    pub predicted_vol_bits: u32,
}

/// The size that a trade of an earlier run counts with, in shares.
pub open spec fn historic_size() -> Dec {
    Dec::of(10, 0)
}

/// Whether a record is that of a trade of an earlier run.
pub open spec fn is_historic(
    record: TradeRecord,
    time_ms: i64,
    side: Side,
    entry_price: Dec,
    exit_price: Dec,
    pnl: Dec,
    hold_ms: u64,
    predicted_vol_bits: u32,
) -> bool {
    &&& record.time_ms == time_ms
    &&& record.side == side
    &&& record.entry_price == entry_price
    &&& record.exit_price == exit_price
    &&& record.pnl == pnl
    &&& record.hold_ms == hold_ms
    &&& record.predicted_vol_bits == predicted_vol_bits
    &&& record.size == historic_size()
    &&& record.entry_type == EntryType::Momentum
    &&& record.trigger_exchange@ == "Unknown"@
    &&& record.z_bits == 0
}

/// The side that a row names: down for any text but `Up`.
pub open spec fn row_side(row: TradeRow) -> Side {
    if row.side_text@ == "Up"@ {
        Side::Up
    } else {
        Side::Down
    }
}

/// Whether a record is that of a row.
pub open spec fn is_record_of_row(record: TradeRecord, row: TradeRow) -> bool {
    is_historic(
        record,
        row.time_ms,
        row_side(row),
        row.entry_price,
        row.exit_price,
        row.pnl,
        row.hold_ms,
        row.predicted_vol_bits,
    )
}

/// What some trades made together, each with the size of an earlier run, where
/// that can be held.
pub open spec fn historic_profit(pnls: Seq<Dec>) -> Option<Dec>
    decreases pnls.len(),
{
    if pnls.len() == 0 {
        Some(Dec::of(0, 0))
    } else {
        match (historic_profit(pnls.drop_last()), pnls.last().spec_times(historic_size())) {
            (Some(sum), Some(usd)) => sum.spec_plus(usd),
            _ => None,
        }
    }
}

/// How many of them are profits.
pub open spec fn historic_wins(pnls: Seq<Dec>) -> nat
    decreases pnls.len(),
{
    if pnls.len() == 0 {
        0
    } else {
        historic_wins(pnls.drop_last()) + (if pnls.last()@ > 0 {
            1nat
        } else {
            0nat
        })
    }
}

/// The profits of rows.
pub open spec fn row_pnls(rows: Seq<TradeRow>) -> Seq<Dec> {
    rows.map_values(|row: TradeRow| row.pnl)
}

/// Adds up profits and counts the positive ones.
fn total_profits(pnls: &Vec<Dec>) -> (r: (Option<Dec>, usize))
    ensures
        r.0 == historic_profit(pnls@),
        r.1 == historic_wins(pnls@),
        r.1 <= pnls@.len(),
{
    let mut total: Option<Dec> = Some(Dec::zero());
    let mut wins: usize = 0;
    let mut i: usize = 0;
    proof {
        assert(pnls@.take(0) =~= Seq::empty());
    }
    while i < pnls.len()
        invariant
            i <= pnls@.len(),
            total == historic_profit(pnls@.take(i as int)),
            wins == historic_wins(pnls@.take(i as int)),
            wins <= i,
        decreases pnls@.len() - i,
    {
        let pnl = pnls[i];
        proof {
            assert(pnls@.take(i + 1).drop_last() =~= pnls@.take(i as int));
            assert(pnls@.take(i + 1).last() == pnl);
        }
        total =
        match (total, pnl.times(Dec::new(10, 0))) {
            (Some(sum), Some(usd)) => sum.plus(usd),
            _ => None,
        };
        if pnl.is_positive() {
            wins += 1;
        }
        i += 1;
    }
    proof {
        assert(pnls@.take(i as int) =~= pnls@);
    }
    (total, wins)
}

impl SharedState {
    /// Takes in the trades of earlier runs.  Each goes to the front of the kept
    /// trades, in the order of the rows; the profits make up the total.  Where
    /// they cannot be added, nothing happens.
    pub fn load_trades(&mut self, rows: &Vec<TradeRow>) -> (r: Option<Dec>)
        requires
            old(self).tally.trade_count + rows@.len() <= u32::MAX,
            old(self).tally.win_count + rows@.len() <= u32::MAX,
        ensures
            r == historic_profit(row_pnls(rows@)),
            r is None ==> *final(self) == *old(self),
            r matches Some(total) ==> {
                &&& final(self).tally == (Tally {
                    total_pnl: total,
                    trade_count: (old(self).tally.trade_count + rows@.len()) as u32,
                    win_count: (old(self).tally.win_count + historic_wins(
                        row_pnls(rows@),
                    )) as u32,
                    ..old(self).tally
                })
                &&& final(self).trades@.len() == rows@.len() + old(self).trades@.len()
                &&& final(self).trades@.skip(rows@.len() as int) == old(self).trades@
                &&& forall|i: int|
                    0 <= i < rows@.len() ==> is_record_of_row(
                        final(self).trades@[rows@.len() - 1 - i],
                        #[trigger] rows@[i],
                    )
                &&& *final(self) == (SharedState {
                    tally: final(self).tally,
                    trades: final(self).trades,
                    ..*old(self)
                })
            },
    {
        let mut pnls: Vec<Dec> = Vec::new();
        let mut k: usize = 0;
        while k < rows.len()
            invariant
                k <= rows@.len(),
                pnls@.len() == k,
                forall|j: int| 0 <= j < k ==> #[trigger] pnls@[j] == rows@[j].pnl,
            decreases rows@.len() - k,
        {
            pnls.push(rows[k].pnl);
            k += 1;
        }
        assert(pnls@ =~= row_pnls(rows@));
        let (total, wins) = total_profits(&pnls);
        let total = match total {
            Some(total) => total,
            None => {
                return None;
            },
        };
        let mut i: usize = 0;
        while i < rows.len()
            invariant
                i <= rows@.len(),
                self.trades@.len() == i + old(self).trades@.len(),
                self.trades@.skip(i as int) =~= old(self).trades@,
                forall|j: int|
                    0 <= j < i ==> is_record_of_row(self.trades@[i - 1 - j], #[trigger] rows@[j]),
                *self == (SharedState { trades: self.trades, ..*old(self) }),
            decreases rows@.len() - i,
        {
            let row = &rows[i];
            let side = if row.side_text == "Up".to_owned() {
                Side::Up
            } else {
                Side::Down
            };
            let record = TradeRecord {
                time_ms: row.time_ms,
                side,
                entry_price: row.entry_price,
                exit_price: row.exit_price,
                pnl: row.pnl,
                hold_ms: row.hold_ms,
                predicted_vol_bits: row.predicted_vol_bits,
                size: Dec::new(10, 0),
                entry_type: EntryType::Momentum,
                trigger_exchange: "Unknown".to_owned(),
                z_bits: 0,
            };
            let ghost before = self.trades@;
            let ghost kept = record;
            self.trades.push_front(record);
            proof {
                assert(self.trades@ =~= seq![kept] + before);
                assert(is_record_of_row(self.trades@[0], *row));
                assert forall|j: int| 0 <= j < i + 1 implies is_record_of_row(
                    self.trades@[i - j],
                    #[trigger] rows@[j],
                ) by {
                    if j < i {
                        assert(self.trades@[i - j] == before[i - 1 - j]);
                    }
                }
                assert(self.trades@.skip(i + 1) =~= before.skip(i as int));
            }
            i += 1;
        }
        self.tally.total_pnl = total;
        self.tally.trade_count = self.tally.trade_count + rows.len() as u32;
        self.tally.win_count = self.tally.win_count + wins as u32;
        Some(total)
    }
}

// ---------------------------------------------------------------------------
// Lines of the old trade file
// ---------------------------------------------------------------------------

/// A trade as a line of the old file holds it.
#[derive(Debug)]
pub struct FileTrade {
    pub time_ms: i64,
    pub side: Side,
    pub entry_price: Dec,
    pub exit_price: Dec,
    pub pnl: Dec,
    pub hold_ms: u64,
    /// The predicted volatility, as text.
    pub vol_text: String,
}

/// The number that a field denotes; zero for any other text.
pub open spec fn field_number(text: Seq<char>) -> Dec {
    match Dec::spec_parse(text) {
        Some(d) => d,
        None => Dec::of(0, 0),
    }
}

/// Reads a field.
fn read_field(text: &str) -> (r: Dec)
    ensures
        r == field_number(text@),
{
    match Dec::parse(text) {
        Some(d) => d,
        None => Dec::zero(),
    }
}

/// Whether a line, split into its fields, holds a trade: it has enough fields, a
/// time, and a profit that can be held.
pub open spec fn holds_trade(fields: Seq<Seq<char>>, time: Option<i64>) -> bool {
    &&& fields.len() >= FILE_FIELDS
    &&& time is Some
    &&& field_number(fields[4]).spec_over(Dec::of(100, 0)) is Some
}

/// Whether a trade is the one that fields hold.
pub open spec fn is_trade_of(t: FileTrade, fields: Seq<Seq<char>>, time: Option<i64>) -> bool {
    &&& Some(t.time_ms) == time
    &&& t.side == (if contains_text(fields[1], "Up"@) {
        Side::Up
    } else {
        Side::Down
    })
    &&& t.entry_price == field_number(fields[2])
    &&& t.exit_price == field_number(fields[3])
    &&& Some(t.pnl) == field_number(fields[4]).spec_over(Dec::of(100, 0))
    &&& t.hold_ms == (match number_in(fields[5]) {
        Some(n) => n,
        None => 0,
    })
    &&& t.vol_text@ == fields[6]
}

/// Makes a trade of the fields of a line and the time in its first field.
pub fn trade_from_fields(fields: &Vec<&str>, time: Option<i64>) -> (r: Option<FileTrade>)
    ensures
        r is Some <==> holds_trade(views(fields@), time),
        r matches Some(t) ==> is_trade_of(t, views(fields@), time),
{
    if fields.len() < FILE_FIELDS {
        return None;
    }
    let time_ms = match time {
        Some(t) => t,
        None => {
            return None;
        },
    };
    let pnl = match read_field(fields[4]).over(Dec::new(100, 0)) {
        Some(pnl) => pnl,
        None => {
            return None;
        },
    };
    let side = if contains(fields[1], "Up") {
        Side::Up
    } else {
        Side::Down
    };
    let hold_ms: u64 = match read_number(fields[5]) {
        Some(n) => n,
        None => 0,
    };
    Some(
        FileTrade {
            time_ms,
            side,
            entry_price: read_field(fields[2]),
            exit_price: read_field(fields[3]),
            pnl,
            hold_ms,
            vol_text: fields[6].to_owned(),
        },
    )
}

/// The time in the first field of a line.
pub open spec fn line_time(line: Seq<char>) -> Option<i64> {
    naive_millis(pieces(line, ',')[0], "%Y-%m-%d %H:%M:%S%.3f"@)
}

/// Reads a line of the old file.
pub fn parse_trade_line(line: &str) -> (r: Option<FileTrade>)
    ensures
        r is Some <==> holds_trade(pieces(line@, ','), line_time(line@)),
        r matches Some(t) ==> is_trade_of(t, pieces(line@, ','), line_time(line@)),
{
    let fields = split(line, ',');
    if fields.len() < FILE_FIELDS {
        return None;
    }
    proof {
        assert(views(fields@)[0] == fields@[0]@);
    }
    let time = parse_naive_time(fields[0], "%Y-%m-%d %H:%M:%S%.3f");
    trade_from_fields(&fields, time)
}

/// A line of the old file and the bits of its predicted volatility.
#[derive(Debug)]
pub struct FileRow {
    pub trade: FileTrade,
    pub predicted_vol_bits: u32,
}

/// Whether a record is that of a line.
pub open spec fn is_record_of_line(record: TradeRecord, row: FileRow) -> bool {
    is_historic(
        record,
        row.trade.time_ms,
        row.trade.side,
        row.trade.entry_price,
        row.trade.exit_price,
        row.trade.pnl,
        row.trade.hold_ms,
        row.predicted_vol_bits,
    )
}

/// The profits of lines.
pub open spec fn line_pnls(rows: Seq<FileRow>) -> Seq<Dec> {
    rows.map_values(|row: FileRow| row.trade.pnl)
}

/// A list with some elements more at its end, each of which drops the first
/// element once there are more than `limit`.
pub open spec fn ring_filled<A>(s: Seq<A>, more: Seq<A>, limit: int) -> Seq<A>
    decreases more.len(),
{
    if more.len() == 0 {
        s
    } else {
        ring_pushed(ring_filled(s, more.drop_last(), limit), more.last(), limit)
    }
}

/// Whether records are those of lines, one for one.
pub open spec fn are_records_of(records: Seq<TradeRecord>, rows: Seq<FileRow>) -> bool {
    &&& records.len() == rows.len()
    &&& forall|i: int|
        0 <= i < rows.len() ==> is_record_of_line(#[trigger] records[i], rows[i])
}

impl SharedState {
    /// Takes in the trades of the old file: they go to the end of the kept
    /// trades, in the order of the lines, each dropping the first trade once
    /// there are too many; and they make up counts and total.  Where the profits
    /// cannot be added, nothing happens.
    pub fn load_historical_trades(&mut self, rows: &Vec<FileRow>) -> (r: Option<Dec>)
        requires
            rows@.len() <= u32::MAX,
        ensures
            r == historic_profit(line_pnls(rows@)),
            r is None ==> *final(self) == *old(self),
            r matches Some(total) ==> {
                &&& final(self).tally == (Tally {
                    total_pnl: total,
                    trade_count: rows@.len() as u32,
                    win_count: historic_wins(line_pnls(rows@)) as u32,
                    ..old(self).tally
                })
                &&& exists|records: Seq<TradeRecord>| #[trigger]
                    are_records_of(records, rows@) && final(self).trades@ == ring_filled(
                        old(self).trades@,
                        records,
                        FILE_TRADES_KEPT as int,
                    )
                &&& exists|records: Seq<TradeRecord>| #[trigger]
                    are_records_of(records, rows@) && final(self).trades@ == ring_filled(
                        old(self).trades@,
                        records,
                        50,
                    )
                &&& *final(self) == (SharedState {
                    tally: final(self).tally,
                    trades: final(self).trades,
                    ..*old(self)
                })
            },
    {
        let mut pnls: Vec<Dec> = Vec::new();
        let mut k: usize = 0;
        while k < rows.len()
            invariant
                k <= rows@.len(),
                pnls@.len() == k,
                forall|j: int| 0 <= j < k ==> #[trigger] pnls@[j] == rows@[j].trade.pnl,
            decreases rows@.len() - k,
        {
            pnls.push(rows[k].trade.pnl);
            k += 1;
        }
        assert(pnls@ =~= line_pnls(rows@));
        let (total, wins) = total_profits(&pnls);
        let total = match total {
            Some(total) => total,
            None => {
                return None;
            },
        };
        let ghost mut records: Seq<TradeRecord> = Seq::empty();
        let mut i: usize = 0;
        while i < rows.len()
            invariant
                i <= rows@.len(),
                records.len() == i,
                forall|j: int| 0 <= j < i ==> is_record_of_line(#[trigger] records[j], rows@[j]),
                self.trades@ == ring_filled(old(self).trades@, records, FILE_TRADES_KEPT as int),
                *self == (SharedState { trades: self.trades, ..*old(self) }),
            decreases rows@.len() - i,
        {
            let row = &rows[i];
            let record = TradeRecord {
                time_ms: row.trade.time_ms,
                side: row.trade.side,
                entry_price: row.trade.entry_price,
                exit_price: row.trade.exit_price,
                pnl: row.trade.pnl,
                hold_ms: row.trade.hold_ms,
                predicted_vol_bits: row.predicted_vol_bits,
                size: Dec::new(10, 0),
                entry_type: EntryType::Momentum,
                trigger_exchange: "Unknown".to_owned(),
                z_bits: 0,
            };
            let ghost before = self.trades@;
            let ghost kept = record;
            self.trades.push_back(record);
            if self.trades.len() > FILE_TRADES_KEPT {
                let _oldest = self.trades.pop_front();
            }
            proof {
                assert(self.trades@ =~= ring_pushed(before, kept, FILE_TRADES_KEPT as int));
                assert(records.push(kept).drop_last() =~= records);
                records = records.push(kept);
            }
            i += 1;
        }
        proof {
            assert(are_records_of(records, rows@));
        }
        self.tally.total_pnl = total;
        self.tally.trade_count = rows.len() as u32;
        self.tally.win_count = wins as u32;
        Some(total)
    }
}

// ---------------------------------------------------------------------------
// Laws
// ---------------------------------------------------------------------------

/// Earlier trades never hold more wins than trades.
pub proof fn law_historic_wins_within_trades(pnls: Seq<Dec>)
    ensures
        historic_wins(pnls) <= pnls.len(),
    decreases pnls.len(),
{
    if pnls.len() > 0 {
        law_historic_wins_within_trades(pnls.drop_last());
    }
}

/// A time that cannot be read is now.
pub proof fn law_unreadable_times_are_now(read: i64, now_ms: i64)
    ensures
        time_or_now(Some(read), now_ms) == read,
        time_or_now(None, now_ms) == now_ms,
{
}

/// A trade of an earlier run is shown with its own time, side, prices, profit and
/// duration, with ten shares, as one entered on momentum, and without an exchange
/// or a displacement.
pub proof fn law_earlier_trades_are_shown_as_stored(
    record: TradeRecord,
    time_ms: i64,
    side: Side,
    entry_price: Dec,
    exit_price: Dec,
    pnl: Dec,
    hold_ms: u64,
    predicted_vol_bits: u32,
)
    requires
        is_historic(
            record,
            time_ms,
            side,
            entry_price,
            exit_price,
            pnl,
            hold_ms,
            predicted_vol_bits,
        ),
    ensures
        record.time_ms == time_ms,
        record.side == side,
        record.entry_price == entry_price,
        record.exit_price == exit_price,
        record.pnl == pnl,
        record.hold_ms == hold_ms,
        record.predicted_vol_bits == predicted_vol_bits,
        record.size == Dec::of(10, 0),
        record.entry_type == EntryType::Momentum,
        record.trigger_exchange@ == "Unknown"@,
        record.z_bits == 0,
{
}

/// The record of a row has the fields of the row; its side is up exactly where the
/// row says `Up`.
pub proof fn law_rows_keep_their_fields(record: TradeRecord, row: TradeRow)
    requires
        is_record_of_row(record, row),
    ensures
        record.time_ms == row.time_ms,
        record.entry_price == row.entry_price,
        record.exit_price == row.exit_price,
        record.pnl == row.pnl,
        record.hold_ms == row.hold_ms,
        record.predicted_vol_bits == row.predicted_vol_bits,
        record.side == Side::Up <==> row.side_text@ == "Up"@,
{
}

/// The record of a line has the fields of the line.
pub proof fn law_lines_keep_their_fields(record: TradeRecord, row: FileRow)
    requires
        is_record_of_line(record, row),
    ensures
        record.time_ms == row.trade.time_ms,
        record.side == row.trade.side,
        record.entry_price == row.trade.entry_price,
        record.exit_price == row.trade.exit_price,
        record.pnl == row.trade.pnl,
        record.hold_ms == row.trade.hold_ms,
        record.predicted_vol_bits == row.predicted_vol_bits,
{
}

/// One more earlier trade adds ten times its profit to what they made, and counts
/// as won exactly where its profit is positive; none make nothing.
pub proof fn law_earlier_profits_add_up(pnls: Seq<Dec>, pnl: Dec)
    ensures
        historic_profit(Seq::<Dec>::empty()) == Some(Dec::of(0, 0)),
        historic_wins(Seq::<Dec>::empty()) == 0,
        forall|sum: Dec, usd: Dec|
            historic_profit(pnls) == Some(sum) && pnl.spec_times(Dec::of(10, 0)) == Some(usd)
                ==> historic_profit(pnls.push(pnl)) == #[trigger] sum.spec_plus(usd),
        historic_profit(pnls) is None || pnl.spec_times(Dec::of(10, 0)) is None ==> historic_profit(
            pnls.push(pnl),
        ) is None,
        pnl@ > 0 ==> historic_wins(pnls.push(pnl)) == historic_wins(pnls) + 1,
        pnl@ <= 0 ==> historic_wins(pnls.push(pnl)) == historic_wins(pnls),
{
    assert(pnls.push(pnl).drop_last() =~= pnls);
}

/// The profits of rows and of lines are theirs, one for one.
pub proof fn law_profits_are_those_of_the_trades(rows: Seq<TradeRow>, lines: Seq<FileRow>)
    ensures
        row_pnls(rows).len() == rows.len(),
        line_pnls(lines).len() == lines.len(),
        forall|i: int| 0 <= i < rows.len() ==> #[trigger] row_pnls(rows)[i] == rows[i].pnl,
        forall|i: int|
            0 <= i < lines.len() ==> #[trigger] line_pnls(lines)[i] == lines[i].trade.pnl,
{
}

/// Filling a ring keeps, in order, just the last elements of all, as many as it
/// may hold.
pub proof fn law_filled_ring_holds_the_last<A>(s: Seq<A>, more: Seq<A>, limit: int)
    requires
        s.len() <= limit,
        limit >= 1,
    ensures
        ring_filled(s, more, limit) == (if s.len() + more.len() <= limit {
            s + more
        } else {
            (s + more).skip(s.len() + more.len() - limit)
        }),
    decreases more.len(),
{
    if more.len() > 0 {
        let before = more.drop_last();
        law_filled_ring_holds_the_last(s, before, limit);
        let all = s + more;
        assert(all =~= (s + before).push(more.last()));
        if s.len() + more.len() > limit {
            let kept = ring_filled(s, before, limit);
            if s.len() + before.len() <= limit {
                assert(kept.push(more.last()).skip(1) =~= all.skip(
                    s.len() + more.len() - limit,
                ));
            } else {
                assert(kept.push(more.last()).skip(1) =~= all.skip(
                    s.len() + more.len() - limit,
                ));
            }
        }
    } else {
        assert(s + more =~= s);
    }
}

/// A line of the old file holds a trade exactly where it has ten fields, a time
/// that can be read, and a profit in cents that can be held in dollars.
pub proof fn law_lines_that_hold_a_trade(fields: Seq<Seq<char>>, time: Option<i64>)
    ensures
        fields.len() < 10 ==> !holds_trade(fields, time),
        time is None ==> !holds_trade(fields, time),
        fields.len() >= 10 && time is Some ==> (holds_trade(fields, time) <==> (
        match Dec::spec_parse(fields[4]) {
            Some(cents) => cents.spec_over(Dec::of(100, 0)) is Some,
            None => Dec::of(0, 0).spec_over(Dec::of(100, 0)) is Some,
        })),
{
}

/// The fields of a line, in order: the side, which is up where `Up` is in it, the
/// prices of entry and exit, the profit in cents, the duration and the
/// volatility; a field that is no number is zero.
pub proof fn law_fields_of_a_line(t: FileTrade, fields: Seq<Seq<char>>, time: Option<i64>)
    requires
        is_trade_of(t, fields, time),
    ensures
        Some(t.time_ms) == time,
        t.side == Side::Up <==> contains_text(fields[1], "Up"@),
        Dec::spec_parse(fields[2]) matches Some(d) ==> t.entry_price == d,
        Dec::spec_parse(fields[2]) is None ==> t.entry_price == Dec::of(0, 0),
        Dec::spec_parse(fields[3]) matches Some(d) ==> t.exit_price == d,
        Dec::spec_parse(fields[3]) is None ==> t.exit_price == Dec::of(0, 0),
        Dec::spec_parse(fields[4]) matches Some(cents) ==> Some(t.pnl) == cents.spec_over(
            Dec::of(100, 0),
        ),
        number_in(fields[5]) matches Some(n) ==> t.hold_ms == n,
        number_in(fields[5]) is None ==> t.hold_ms == 0,
        t.vol_text@ == fields[6],
{
}

/// The time of a line is what its first field is read as.
pub proof fn law_time_of_a_line_is_its_first_field(line: Seq<char>)
    ensures
        line_time(line) == naive_millis(pieces(line, ',')[0], "%Y-%m-%d %H:%M:%S%.3f"@),
{
}

/// Records are those of lines where there are as many and each has the fields of
/// its line.
pub proof fn law_records_are_of_each_line(records: Seq<TradeRecord>, rows: Seq<FileRow>, i: int)
    requires
        are_records_of(records, rows),
        0 <= i < rows.len(),
    ensures
        records.len() == rows.len(),
        records[i].time_ms == rows[i].trade.time_ms,
        records[i].side == rows[i].trade.side,
        records[i].entry_price == rows[i].trade.entry_price,
        records[i].exit_price == rows[i].trade.exit_price,
        records[i].pnl == rows[i].trade.pnl,
        records[i].hold_ms == rows[i].trade.hold_ms,
        records[i].size == Dec::of(10, 0),
{
}

} // verus!
