//! Saved triggers.
//!
//! The triggers of a token are saved as texts, one row per token, so that they
//! survive a restart.

use crate::decimal::Dec;
use vstd::prelude::*;

verus! {

/// A saved row, as it is stored.
#[derive(Debug)]
pub struct SavedRow {
    pub token_id: String,
    pub sl_text: Option<String>,
    pub tp_text: Option<String>,
}

/// The triggers of a token.
#[derive(Debug)]
pub struct SavedTriggers {
    pub token_id: String,
    pub sl_price: Option<Dec>,
    pub tp_price: Option<Dec>,
}

/// The price that a stored text denotes.
pub open spec fn stored_price(text: Option<Seq<char>>) -> Option<Dec> {
    match text {
        Some(t) => Dec::spec_parse(t),
        None => None,
    }
}

/// The characters of a text that may be missing.
pub open spec fn text_of(text: Option<String>) -> Option<Seq<char>> {
    match text {
        Some(t) => Some(t@),
        None => None,
    }
}

/// Writes a price as it is stored.
pub fn price_text(price: Option<Dec>) -> (r: Option<String>)
    ensures
        text_of(r) == (match price {
            Some(p) => Some(p.spec_text()),
            None => None,
        }),
        stored_price(text_of(r)) == price,
{
    match price {
        Some(p) => Some(p.to_text()),
        None => None,
    }
}

/// Reads a stored price; a text that is no number is no price.
pub fn read_price(text: &Option<String>) -> (r: Option<Dec>)
    ensures
        r == stored_price(text_of(*text)),
{
    match text {
        Some(t) => Dec::parse(t.as_str()),
        None => None,
    }
}

/// Makes the row that stores the triggers of a token.  Reading the row gives the
/// same triggers again.
pub fn save_sl_tp(token_id: &String, sl: Option<Dec>, tp: Option<Dec>) -> (r: SavedRow)
    ensures
        r.token_id == *token_id,
        text_of(r.sl_text) == (match sl {
            Some(p) => Some(p.spec_text()),
            None => None,
        }),
        text_of(r.tp_text) == (match tp {
            Some(p) => Some(p.spec_text()),
            None => None,
        }),
        row_triggers(r) == (SavedTriggers { token_id: *token_id, sl_price: sl, tp_price: tp }),
{
    SavedRow { token_id: token_id.clone(), sl_text: price_text(sl), tp_text: price_text(tp) }
}

/// The triggers that a row stores.
pub open spec fn row_triggers(row: SavedRow) -> SavedTriggers {
    SavedTriggers {
        token_id: row.token_id,
        sl_price: stored_price(text_of(row.sl_text)),
        tp_price: stored_price(text_of(row.tp_text)),
    }
}

/// Reads all rows.
pub fn load_sl_tp_settings(rows: &Vec<SavedRow>) -> (r: Vec<SavedTriggers>)
    ensures
        r@ == rows@.map_values(|row: SavedRow| row_triggers(row)),
{
    let mut out: Vec<SavedTriggers> = Vec::new();
    let mut i: usize = 0;
    while i < rows.len()
        invariant
            i <= rows@.len(),
            out@.len() == i,
            forall|j: int| 0 <= j < i ==> #[trigger] out@[j] == row_triggers(rows@[j]),
        decreases rows@.len() - i,
    {
        let row = &rows[i];
        out.push(
            SavedTriggers {
                token_id: row.token_id.clone(),
                sl_price: read_price(&row.sl_text),
                tp_price: read_price(&row.tp_text),
            },
        );
        i += 1;
    }
    assert(out@ =~= rows@.map_values(|row: SavedRow| row_triggers(row)));
    out
}

// ---------------------------------------------------------------------------
// Laws
// ---------------------------------------------------------------------------

/// The saved rows by their tokens after some changes.  A change saves a row for a
/// token, in place of the one it had, or, where it has no row, clears the token.
pub open spec fn table_after(changes: Seq<(Seq<char>, Option<SavedRow>)>) -> Map<Seq<char>, SavedRow>
    decreases changes.len(),
{
    if changes.len() == 0 {
        Map::empty()
    } else {
        let before = table_after(changes.drop_last());
        match changes.last().1 {
            Some(row) => before.insert(changes.last().0, row),
            None => before.remove(changes.last().0),
        }
    }
}

/// The row that the last change of a token has saved; none where it has cleared
/// the token, or there is no change of it.
pub open spec fn last_saved(changes: Seq<(Seq<char>, Option<SavedRow>)>, token: Seq<char>) -> Option<
    SavedRow,
>
    decreases changes.len(),
{
    if changes.len() == 0 {
        None
    } else if changes.last().0 == token {
        changes.last().1
    } else {
        last_saved(changes.drop_last(), token)
    }
}

/// Whether some rows are those of a table, in whatever order: each is in the
/// table under its token, no token has two, and none is missing.
pub open spec fn are_rows_of(rows: Seq<SavedRow>, table: Map<Seq<char>, SavedRow>) -> bool {
    &&& forall|i: int|
        0 <= i < rows.len() ==> table.contains_key((#[trigger] rows[i]).token_id@)
            && table[rows[i].token_id@] == rows[i]
    &&& forall|i: int, j: int|
        0 <= i < j < rows.len() ==> (#[trigger] rows[i]).token_id@ != (
        #[trigger] rows[j]).token_id@
    &&& forall|token: Seq<char>| #[trigger]
        table.contains_key(token) ==> exists|i: int|
            0 <= i < rows.len() && (#[trigger] rows[i]).token_id@ == token
}

/// The table holds for each token what its last change has saved.
proof fn lemma_table_holds_last(changes: Seq<(Seq<char>, Option<SavedRow>)>, token: Seq<char>)
    ensures
        match last_saved(changes, token) {
            Some(row) => table_after(changes).contains_key(token) && table_after(changes)[token]
                == row,
            None => !table_after(changes).contains_key(token),
        },
    decreases changes.len(),
{
    if changes.len() > 0 {
        lemma_table_holds_last(changes.drop_last(), token);
    }
}

/// The index of the only triggers of a token among some.
pub open spec fn is_only_of(triggers: Seq<SavedTriggers>, token: Seq<char>, i: int) -> bool {
    &&& 0 <= i < triggers.len()
    &&& triggers[i].token_id@ == token
    &&& forall|j: int|
        0 <= j < triggers.len() && j != i ==> (#[trigger] triggers[j]).token_id@ != token
}

/// Triggers survive a restart: after any saves and clears, reading the rows gives
/// for each token that was last saved exactly one entry, with the triggers that
/// were saved, and none for a token that was last cleared or never saved.
pub proof fn law_last_saved_triggers_load(
    changes: Seq<(Seq<char>, Option<SavedRow>)>,
    rows: Seq<SavedRow>,
    token: Seq<char>,
)
    requires
        are_rows_of(rows, table_after(changes)),
    ensures
        ({
            let loaded = rows.map_values(|row: SavedRow| row_triggers(row));
            match last_saved(changes, token) {
                Some(row) => exists|i: int| #[trigger]
                    is_only_of(loaded, token, i) && loaded[i] == row_triggers(row),
                None => forall|i: int|
                    0 <= i < loaded.len() ==> (#[trigger] loaded[i]).token_id@ != token,
            }
        }),
{
    lemma_table_holds_last(changes, token);
    let loaded = rows.map_values(|row: SavedRow| row_triggers(row));
    let table = table_after(changes);
    assert forall|j: int| 0 <= j < loaded.len() implies (#[trigger] loaded[j]).token_id
        == rows[j].token_id by {}
    if let Some(row) = last_saved(changes, token) {
        assert(table.contains_key(token));
        let i = choose|i: int| 0 <= i < rows.len() && (#[trigger] rows[i]).token_id@ == token;
        assert(rows[i] == row);
        assert forall|j: int| 0 <= j < loaded.len() && j != i implies (
        #[trigger] loaded[j]).token_id@ != token by {
            if j < i {
                assert(rows[j].token_id@ != rows[i].token_id@);
            } else {
                assert(rows[i].token_id@ != rows[j].token_id@);
            }
        }
        assert(is_only_of(loaded, token, i));
    } else {
        assert forall|i: int| 0 <= i < loaded.len() implies (#[trigger] loaded[i]).token_id@
            != token by {
            assert(table.contains_key(rows[i].token_id@));
        }
    }
}

/// A stored row gives back its token and, for each trigger, the price that its
/// text denotes: a missing text is no price, and neither is one that is no number.
pub proof fn law_rows_give_back_their_triggers(row: SavedRow)
    ensures
        row_triggers(row).token_id == row.token_id,
        row.sl_text is None ==> row_triggers(row).sl_price is None,
        row.sl_text matches Some(text) ==> row_triggers(row).sl_price == Dec::spec_parse(text@),
        row.tp_text is None ==> row_triggers(row).tp_price is None,
        row.tp_text matches Some(text) ==> row_triggers(row).tp_price == Dec::spec_parse(text@),
{
}

/// The price of a stored text is what the text denotes, and the characters of a
/// text are its own.
pub proof fn law_stored_prices_are_as_written(text: String)
    ensures
        text_of(Some(text)) == Some(text@),
        text_of(None) is None,
        stored_price(Some(text@)) == Dec::spec_parse(text@),
        stored_price(None) is None,
{
}

} // verus!
