//! The schema of the store, and its division into the statements that
//! create it.

use vstd::prelude::*;
use vstd::std_specs::iter::IteratorSpec;
use vstd::string::{StrSliceExecFns, StringExecFns};

use crate::text::{trim, trimmed};

verus! {

broadcast use vstd::string::group_string_axioms;

/// The pieces of a text between its semicolons, in order: one more than
/// the text has semicolons.
pub open spec fn pieces(text: Seq<char>) -> Seq<Seq<char>>
    decreases text.len(),
{
    if text.len() == 0 {
        seq![Seq::empty()]
    } else {
        let before = pieces(text.drop_last());
        if text.last() == ';' {
            before.push(Seq::empty())
        } else {
            before.drop_last().push(before.last().push(text.last()))
        }
    }
}

/// The statements among pieces: each piece trimmed, and the blank ones
/// left out.
pub open spec fn statements_of(parts: Seq<Seq<char>>) -> Seq<Seq<char>>
    decreases parts.len(),
{
    if parts.len() == 0 {
        Seq::empty()
    } else {
        let before = statements_of(parts.drop_last());
        if trimmed(parts.last()).len() == 0 {
            before
        } else {
            before.push(trimmed(parts.last()))
        }
    }
}

/// The statements of a schema text: what stands between semicolons,
/// trimmed, without the blank pieces.
pub open spec fn schema_statements_of(schema: Seq<char>) -> Seq<Seq<char>> {
    statements_of(pieces(schema))
}

/// The three tables of the store: companies with a unique symbol, daily
/// prices with one row per company and trading day, and the ingestion log.
pub open spec fn schema_text() -> Seq<char> {
    "CREATE TABLE IF NOT EXISTS companies (id INTEGER PRIMARY KEY AUTOINCREMENT, symbol TEXT NOT NULL UNIQUE, isin TEXT NOT NULL DEFAULT '', series TEXT NOT NULL, name TEXT, created_at DATETIME NOT NULL DEFAULT CURRENT_TIMESTAMP, updated_at DATETIME NOT NULL DEFAULT CURRENT_TIMESTAMP);\nCREATE TABLE IF NOT EXISTS daily_prices (id INTEGER PRIMARY KEY AUTOINCREMENT, company_id INTEGER NOT NULL REFERENCES companies(id), trade_date DATE NOT NULL, open_price REAL NOT NULL, high_price REAL NOT NULL, low_price REAL NOT NULL, close_price REAL NOT NULL, last_price REAL NOT NULL, prev_close REAL NOT NULL, total_traded_qty INTEGER NOT NULL, total_traded_value REAL NOT NULL, total_trades INTEGER NOT NULL, created_at DATETIME NOT NULL DEFAULT CURRENT_TIMESTAMP, UNIQUE(company_id, trade_date));\nCREATE TABLE IF NOT EXISTS ingestion_log (id INTEGER PRIMARY KEY AUTOINCREMENT, source TEXT NOT NULL, file_name TEXT, trade_date DATE, records_processed INTEGER, status TEXT NOT NULL, error_message TEXT, started_at DATETIME, completed_at DATETIME NOT NULL);\n"@
}

/// The schema of the store.
pub fn schema() -> (text: &'static str)
    ensures
        text@ == schema_text(),
{
    "CREATE TABLE IF NOT EXISTS companies (id INTEGER PRIMARY KEY AUTOINCREMENT, symbol TEXT NOT NULL UNIQUE, isin TEXT NOT NULL DEFAULT '', series TEXT NOT NULL, name TEXT, created_at DATETIME NOT NULL DEFAULT CURRENT_TIMESTAMP, updated_at DATETIME NOT NULL DEFAULT CURRENT_TIMESTAMP);\nCREATE TABLE IF NOT EXISTS daily_prices (id INTEGER PRIMARY KEY AUTOINCREMENT, company_id INTEGER NOT NULL REFERENCES companies(id), trade_date DATE NOT NULL, open_price REAL NOT NULL, high_price REAL NOT NULL, low_price REAL NOT NULL, close_price REAL NOT NULL, last_price REAL NOT NULL, prev_close REAL NOT NULL, total_traded_qty INTEGER NOT NULL, total_traded_value REAL NOT NULL, total_trades INTEGER NOT NULL, created_at DATETIME NOT NULL DEFAULT CURRENT_TIMESTAMP, UNIQUE(company_id, trade_date));\nCREATE TABLE IF NOT EXISTS ingestion_log (id INTEGER PRIMARY KEY AUTOINCREMENT, source TEXT NOT NULL, file_name TEXT, trade_date DATE, records_processed INTEGER, status TEXT NOT NULL, error_message TEXT, started_at DATETIME, completed_at DATETIME NOT NULL);\n"
}

/// Adds the statement of a piece to the statements, unless the piece is blank.
fn push_statement(statements: &mut Vec<String>, piece: &str)
    ensures
        final(statements).deep_view() == if trimmed(piece@).len() == 0 {
            old(statements).deep_view()
        } else {
            old(statements).deep_view().push(trimmed(piece@))
        },
{
    let statement = trim(piece);
    if !statement.is_empty() {
        statements.push(String::from_str(statement));
        assert(statements.deep_view() =~= old(statements).deep_view().push(trimmed(piece@)));
    } else {
        assert(statements.deep_view() =~= old(statements).deep_view());
    }
}

/// The statements of a schema text, in order: what stands between
/// semicolons, trimmed, without the blank pieces.
pub fn schema_statements(schema: &str) -> (statements: Vec<String>)
    ensures
        statements.deep_view() == schema_statements_of(schema@),
{
    let length: usize = schema.unicode_len();
    let mut statements: Vec<String> = Vec::new();
    let mut it = schema.chars();
    let mut start: usize = 0;
    let mut i: usize = 0;
    let ghost mut seen: Seq<char> = Seq::empty();
    let ghost mut closed: Seq<Seq<char>> = Seq::empty();
    proof {
        assert(schema@.subrange(0, 0) =~= Seq::<char>::empty());
        assert(pieces(seen) =~= closed.push(schema@.subrange(0, 0)));
        assert(statements.deep_view() =~= statements_of(closed));
    }
    loop
        invariant
            it.obeys_prophetic_iter_laws(),
            it.decrease() is Some,
            length == schema@.len(),
            seen + it.remaining() == schema@,
            seen.len() == i,
            start <= i <= length,
            pieces(seen) == closed.push(schema@.subrange(start as int, i as int)),
            statements.deep_view() == statements_of(closed),
        decreases it.decrease()->0,
    {
        let ghost rest = it.remaining();
        let ghost open = schema@.subrange(start as int, i as int);
        match it.next() {
            Some(c) => {
                proof {
                    assert(seen.push(c).drop_last() =~= seen);
                    assert(seen.push(c) + rest.drop_first() =~= seen + rest);
                    assert(schema@[i as int] == c);
                    assert(closed.push(open).drop_last() =~= closed);
                }
                if c == ';' {
                    push_statement(&mut statements, schema.substring_char(start, i));
                    proof {
                        closed = closed.push(open);
                        assert(closed.drop_last() =~= pieces(seen).drop_last());
                        assert(schema@.subrange(i + 1, i + 1) =~= Seq::<char>::empty());
                    }
                    start = i + 1;
                } else {
                    proof {
                        assert(schema@.subrange(start as int, i + 1) =~= open.push(c));
                    }
                }
                proof {
                    seen = seen.push(c);
                }
                i = i + 1;
            },
            None => {
                proof {
                    assert(seen + rest =~= seen);
                    assert(closed.push(open).drop_last() =~= closed);
                }
                push_statement(&mut statements, schema.substring_char(start, i));
                return statements;
            },
        }
    }
}

/// The statements that create the store, in order.
pub fn initialize() -> (statements: Vec<String>)
    ensures
        statements.deep_view() == schema_statements_of(schema_text()),
{
    schema_statements(schema())
}

} // verus!
