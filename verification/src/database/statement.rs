//! Statements for the relational store: a text with `?` place holders and
//! the values bound to them, in order. User-supplied text only ever travels
//! as a bound value, never inside the statement text.

use vstd::prelude::*;
use vstd::string::StringExecFns;

use crate::calendar::{CivilDate, TradeDate};

verus! {

/// A value bound to a place holder.
#[derive(Debug, PartialEq, Eq)]
pub enum SqlValue {
    Null,
    Integer(i64),
    Text(String),
    Date(TradeDate),
    /// A decimal number: the number that `text` writes, times `unit`.
    /// Text that writes no number counts as zero.
    Decimal { text: String, unit: u32 },
}

/// A bound value as mathematics sees it.
pub enum SqlValueView {
    Null,
    Integer(int),
    Text(Seq<char>),
    Date(CivilDate),
    Decimal { text: Seq<char>, unit: int },
}

impl View for SqlValue {
    type V = SqlValueView;

    open spec fn view(&self) -> SqlValueView {
        match self {
            SqlValue::Null => SqlValueView::Null,
            SqlValue::Integer(v) => SqlValueView::Integer(*v as int),
            SqlValue::Text(t) => SqlValueView::Text(t@),
            SqlValue::Date(d) => SqlValueView::Date(d@),
            SqlValue::Decimal { text, unit } => SqlValueView::Decimal {
                text: text@,
                unit: *unit as int,
            },
        }
    }
}

impl SqlValue {
    /// A second value equal to this one.
    pub fn duplicate(&self) -> (copy: SqlValue)
        ensures
            copy@ == self@,
    {
        match self {
            SqlValue::Null => SqlValue::Null,
            SqlValue::Integer(v) => SqlValue::Integer(*v),
            SqlValue::Text(t) => SqlValue::Text(t.clone()),
            SqlValue::Date(d) => SqlValue::Date(*d),
            SqlValue::Decimal { text, unit } => SqlValue::Decimal { text: text.clone(), unit: *unit },
        }
    }
}

impl DeepView for SqlValue {
    type V = SqlValueView;

    open spec fn deep_view(&self) -> SqlValueView {
        self@
    }
}

/// A statement and the values bound to its place holders.
#[derive(Debug, PartialEq, Eq)]
pub struct Statement {
    pub sql: String,
    pub params: Vec<SqlValue>,
}

/// A statement as mathematics sees it.
pub struct StatementView {
    pub sql: Seq<char>,
    pub params: Seq<SqlValueView>,
}

impl View for Statement {
    type V = StatementView;

    open spec fn view(&self) -> StatementView {
        StatementView { sql: self.sql@, params: self.params.deep_view() }
    }
}

/// `parts` written one after the other with `separator` between them.
pub open spec fn joined(parts: Seq<Seq<char>>, separator: Seq<char>) -> Seq<char>
    decreases parts.len(),
{
    if parts.len() == 0 {
        Seq::empty()
    } else if parts.len() == 1 {
        parts[0]
    } else {
        joined(parts.drop_last(), separator) + separator + parts.last()
    }
}

/// The filter of a statement: nothing without conditions, and else the
/// conditions joined by `AND`.
pub open spec fn where_clause(conditions: Seq<Seq<char>>) -> Seq<char> {
    if conditions.len() == 0 {
        Seq::empty()
    } else {
        " WHERE "@ + joined(conditions, " AND "@)
    }
}

/// The pattern that matches every text that holds `term`.
pub open spec fn contains_pattern(term: Seq<char>) -> Seq<char> {
    seq!['%'] + term + seq!['%']
}

/// The value that an optional text binds: the text, or null.
pub open spec fn text_or_null(text: Option<Seq<char>>) -> SqlValueView {
    match text {
        Some(t) => SqlValueView::Text(t),
        None => SqlValueView::Null,
    }
}

/// Appends the filter made of `conditions` to a statement text.
pub fn push_where(sql: &mut String, conditions: &Vec<&'static str>)
    ensures
        final(sql)@ == old(sql)@ + where_clause(conditions.deep_view()),
{
    let ghost parts = conditions.deep_view();
    if conditions.len() == 0 {
        assert(sql@ =~= old(sql)@ + where_clause(parts));
        return ;
    }
    sql.append(" WHERE ");
    sql.append(conditions[0]);
    assert(parts.take(1) =~= seq![parts[0]]);
    let mut i: usize = 1;
    while i < conditions.len()
        invariant
            1 <= i <= conditions.len(),
            parts == conditions.deep_view(),
            sql@ == old(sql)@ + " WHERE "@ + joined(parts.take(i as int), " AND "@),
        decreases conditions.len() - i,
    {
        sql.append(" AND ");
        sql.append(conditions[i]);
        proof {
            assert(parts.take(i + 1).drop_last() =~= parts.take(i as int));
            assert(parts.take(i + 1).last() == parts[i as int]);
            assert(sql@ =~= old(sql)@ + " WHERE "@ + joined(parts.take(i + 1), " AND "@));
        }
        i = i + 1;
    }
    assert(parts.take(conditions.len() as int) =~= parts);
    assert(sql@ =~= old(sql)@ + where_clause(parts));
}

/// The pattern that matches every text that holds `term`.
pub fn pattern_containing(term: &str) -> (pattern: String)
    ensures
        pattern@ == contains_pattern(term@),
{
    proof {
        reveal_strlit("%");
    }
    let mut pattern = String::from_str("%");
    pattern.append(term);
    pattern.append("%");
    assert(pattern@ =~= contains_pattern(term@));
    pattern
}

/// The value that an optional text binds: the text, or null.
pub fn bind_optional_text(text: &Option<String>) -> (value: SqlValue)
    ensures
        value@ == text_or_null(
            match text {
                Some(t) => Some(t@),
                None => None,
            },
        ),
{
    match text {
        Some(t) => SqlValue::Text(t.clone()),
        None => SqlValue::Null,
    }
}

} // verus!
