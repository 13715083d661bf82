use cheque_workflow::query::{check_dynamic_query, check_upper_query, Keyword, QueryError};

#[test]
fn blank_query_is_refused() {
    assert_eq!(check_dynamic_query(""), Err(QueryError::Empty));
    assert_eq!(check_dynamic_query("  \n"), Err(QueryError::Empty));
}

#[test]
fn read_query_is_allowed() {
    assert_eq!(check_dynamic_query("SELECT * FROM cheques WHERE status = 'Pending'"), Ok(()));
}

#[test]
fn keywords_are_found_in_any_case() {
    assert_eq!(check_dynamic_query("drop table cheques"), Err(QueryError::Forbidden(Keyword::Drop)));
    assert_eq!(check_dynamic_query("Alter table x"), Err(QueryError::Forbidden(Keyword::Alter)));
    assert_eq!(
        check_dynamic_query("select deleted_at from t"),
        Err(QueryError::Forbidden(Keyword::Delete))
    );
}

#[test]
fn first_keyword_in_fixed_order_wins() {
    assert_eq!(
        check_dynamic_query("truncate x; drop y"),
        Err(QueryError::Forbidden(Keyword::Drop))
    );
    assert_eq!(check_upper_query("TRUNCATE T"), Err(QueryError::Forbidden(Keyword::Truncate)));
    assert_eq!(check_upper_query("truncate t"), Ok(()));
}

#[test]
fn query_messages() {
    assert_eq!(
        QueryError::Forbidden(Keyword::Drop).message(),
        "Query contains dangerous keyword 'DROP' and is not allowed"
    );
    assert_eq!(QueryError::Empty.message(), "SQL query cannot be empty");
}
