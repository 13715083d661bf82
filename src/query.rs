//! The guard in front of ad-hoc reporting queries: a query must not be blank
//! and its upper-cased text must hold none of the destructive keywords.

use vstd::prelude::*;
use crate::text::{blank, contains, find_text, is_blank};

verus! {

/// A keyword that marks a query as destructive.
#[derive(Debug, Clone, Copy, PartialEq, Eq, Structural)]
pub enum Keyword {
    Drop,
    Delete,
    Truncate,
    Alter,
}

/// Why a query is refused.
#[derive(Debug, Clone, Copy, PartialEq, Eq, Structural)]
pub enum QueryError {
    /// The query is empty or only whitespace.
    Empty,
    /// The query holds a destructive keyword.
    Forbidden(Keyword),
}

/// The keyword as it is searched for.
pub open spec fn keyword_text(k: Keyword) -> Seq<char> {
    match k {
        Keyword::Drop => "DROP"@,
        Keyword::Delete => "DELETE"@,
        Keyword::Truncate => "TRUNCATE"@,
        Keyword::Alter => "ALTER"@,
    }
}

/// The upper-case form of a text, as `str::to_uppercase` gives it.
pub uninterp spec fn upper_of(s: Seq<char>) -> Seq<char>;

/// Relies on `str::to_uppercase`: the upper-case mapping of each character,
/// which depends on the text alone.
#[verifier::external_body]
fn uppercase(s: &str) -> (r: String)
    ensures
        r@ == upper_of(s@),
{
    s.to_uppercase()
}

/// The verdict on an upper-cased query text: the first keyword it holds, in
/// the order DROP, DELETE, TRUNCATE, ALTER, refuses it.
pub open spec fn keyword_verdict(upper: Seq<char>) -> Result<(), QueryError> {
    if contains(upper, keyword_text(Keyword::Drop)) {
        Err(QueryError::Forbidden(Keyword::Drop))
    } else if contains(upper, keyword_text(Keyword::Delete)) {
        Err(QueryError::Forbidden(Keyword::Delete))
    } else if contains(upper, keyword_text(Keyword::Truncate)) {
        Err(QueryError::Forbidden(Keyword::Truncate))
    } else if contains(upper, keyword_text(Keyword::Alter)) {
        Err(QueryError::Forbidden(Keyword::Alter))
    } else {
        Ok(())
    }
}

/// The verdict on a query: a blank one is refused, any other is judged by
/// its upper-case form.
pub open spec fn query_verdict(query: Seq<char>) -> Result<(), QueryError> {
    if is_blank(query) {
        Err(QueryError::Empty)
    } else {
        keyword_verdict(upper_of(query))
    }
}

/// Checks an already upper-cased query text against the destructive
/// keywords.
pub fn check_upper_query(upper: &str) -> (r: Result<(), QueryError>)
    ensures
        r == keyword_verdict(upper@),
{
    if find_text(upper, "DROP") {
        Err(QueryError::Forbidden(Keyword::Drop))
    } else if find_text(upper, "DELETE") {
        Err(QueryError::Forbidden(Keyword::Delete))
    } else if find_text(upper, "TRUNCATE") {
        Err(QueryError::Forbidden(Keyword::Truncate))
    } else if find_text(upper, "ALTER") {
        Err(QueryError::Forbidden(Keyword::Alter))
    } else {
        Ok(())
    }
}

/// Decides whether an ad-hoc query may run: it must not be blank, and its
/// upper-case form must hold no destructive keyword.
pub fn check_dynamic_query(sql_query: &str) -> (r: Result<(), QueryError>)
    ensures
        r == query_verdict(sql_query@),
{
    if blank(sql_query) {
        return Err(QueryError::Empty);
    }
    let upper = uppercase(sql_query);
    check_upper_query(upper.as_str())
}

impl Keyword {
    /// The keyword's text.
    pub fn text(&self) -> (r: &'static str)
        ensures
            r@ == keyword_text(*self),
    {
        match self {
            Keyword::Drop => "DROP",
            Keyword::Delete => "DELETE",
            Keyword::Truncate => "TRUNCATE",
            Keyword::Alter => "ALTER",
        }
    }
}

/// The message that reports a refused query.
pub open spec fn query_message(e: QueryError) -> Seq<char> {
    match e {
        QueryError::Empty => "SQL query cannot be empty"@,
        QueryError::Forbidden(k) => "Query contains dangerous keyword '"@ + keyword_text(k)
            + "' and is not allowed"@,
    }
}

impl QueryError {
    /// A message stating why the query is refused.
    pub fn message(&self) -> (r: String)
        ensures
            r@ == query_message(*self),
    {
        match self {
            QueryError::Empty => String::from_str("SQL query cannot be empty"),
            QueryError::Forbidden(k) => {
                let mut s = String::from_str("Query contains dangerous keyword '");
                s.append(k.text());
                s.append("' and is not allowed");
                s
            },
        }
    }
}

} // verus!
