use timefusion::error::TimeFusionError;
use timefusion::query::{classify_query, prepare_sql, QueryKind};

#[test]
fn write_verbs_are_told_apart() {
    assert_eq!(classify_query("INSERT INTO t VALUES (1)"), QueryKind::Insert);
    assert_eq!(classify_query("UPDATE t SET a = 1"), QueryKind::Update);
    assert_eq!(classify_query("DELETE FROM t"), QueryKind::Delete);
    assert_eq!(classify_query("SELECT 1"), QueryKind::Other);
}

#[test]
fn verbs_match_in_any_case() {
    assert_eq!(classify_query("insert into t values (1)"), QueryKind::Insert);
    assert_eq!(classify_query("InSeRt into t values (1)"), QueryKind::Insert);
    assert_eq!(classify_query("uPdAtE t set a = 1"), QueryKind::Update);
    assert_eq!(classify_query("delete from t"), QueryKind::Delete);
}

#[test]
fn leading_white_space_is_skipped() {
    assert_eq!(classify_query("   INSERT INTO t VALUES (1)"), QueryKind::Insert);
    assert_eq!(classify_query("\n\t update t set a = 1"), QueryKind::Update);
    assert_eq!(classify_query("\u{a0}\u{2003}delete from t"), QueryKind::Delete);
    assert_eq!(classify_query("\u{3000}INSERT INTO t VALUES (1)"), QueryKind::Insert);
}

#[test]
fn a_verb_must_be_the_first_keyword() {
    assert_eq!(classify_query("SELECT 'insert'"), QueryKind::Other);
    assert_eq!(classify_query("WITH x AS (SELECT 1) INSERT INTO t SELECT * FROM x"), QueryKind::Other);
    assert_eq!(classify_query("-- insert\nSELECT 1"), QueryKind::Other);
}

#[test]
fn a_verb_must_end_where_the_keyword_ends() {
    assert_eq!(classify_query("insertion"), QueryKind::Other);
    assert_eq!(classify_query("INSERT_ROWS 1"), QueryKind::Other);
    assert_eq!(classify_query("update2 t"), QueryKind::Other);
    assert_eq!(classify_query("deleted"), QueryKind::Other);
    assert_eq!(classify_query("INSERT"), QueryKind::Insert);
    assert_eq!(classify_query("INSERT(1)"), QueryKind::Insert);
    assert_eq!(classify_query("DELETE\nFROM t"), QueryKind::Delete);
    assert_eq!(classify_query("update;"), QueryKind::Update);
}

#[test]
fn short_and_empty_statements_are_other() {
    assert_eq!(classify_query(""), QueryKind::Other);
    assert_eq!(classify_query("   "), QueryKind::Other);
    assert_eq!(classify_query("inser"), QueryKind::Other);
    assert_eq!(classify_query("  updat"), QueryKind::Other);
}

#[test]
fn letters_outside_ascii_do_not_fold() {
    // U+0130 is a capital I with a dot; it is no ASCII letter.
    assert_eq!(classify_query("\u{130}NSERT INTO t VALUES (1)"), QueryKind::Other);
    // U+212A is the Kelvin sign.
    assert_eq!(classify_query("\u{212a}"), QueryKind::Other);
}

#[test]
fn regclass_casts_are_stripped() {
    assert_eq!(
        prepare_sql("SELECT 'otel_logs_and_spans'::regclass").unwrap(),
        "SELECT 'otel_logs_and_spans'"
    );
    assert_eq!(
        prepare_sql("SELECT a::regclass, b::regclass FROM t WHERE c = 'x'::regclass::oid").unwrap(),
        "SELECT a, b FROM t WHERE c = 'x'::oid"
    );
    assert_eq!(prepare_sql("::regclass").unwrap(), "");
    assert_eq!(prepare_sql("::regclass::regclass").unwrap(), "");
}

#[test]
fn what_is_left_after_stripping_is_not_searched_again() {
    assert_eq!(prepare_sql("::reg::regclassclass").unwrap(), "::regclass");
}

#[test]
fn only_the_exact_cast_is_stripped() {
    assert_eq!(prepare_sql("SELECT a::REGCLASS").unwrap(), "SELECT a::REGCLASS");
    assert_eq!(prepare_sql("SELECT a::regclas").unwrap(), "SELECT a::regclas");
    assert_eq!(prepare_sql("SELECT a:regclass").unwrap(), "SELECT a:regclass");
    assert_eq!(prepare_sql("SELECT a::regtype").unwrap(), "SELECT a::regtype");
}

#[test]
fn other_statements_pass_unchanged() {
    let sql = "SELECT name FROM otel_logs_and_spans WHERE project_id='test_project' AND level='ERROR'";
    assert_eq!(prepare_sql(sql).unwrap(), sql);
    assert_eq!(prepare_sql("").unwrap(), "");
    assert_eq!(prepare_sql("  SELECT 1  ").unwrap(), "  SELECT 1  ");
    assert_eq!(prepare_sql("SELECT 'é€' AS x").unwrap(), "SELECT 'é€' AS x");
}

#[test]
fn the_isolation_level_is_answered_with_a_literal() {
    let answer = "SELECT 'read committed' AS transaction_isolation";
    assert_eq!(prepare_sql("SHOW TRANSACTION ISOLATION LEVEL").unwrap(), answer);
    assert_eq!(prepare_sql("show transaction isolation level").unwrap(), answer);
    assert_eq!(prepare_sql("SHOW transaction_isolation").unwrap(), answer);
    assert_eq!(prepare_sql("  show Transaction_Isolation \n").unwrap(), answer);
}

#[test]
fn a_closing_semicolon_is_no_part_of_the_statement() {
    let answer = "SELECT 'read committed' AS transaction_isolation";
    assert_eq!(prepare_sql("SHOW transaction_isolation;").unwrap(), answer);
    assert_eq!(prepare_sql(" SHOW TRANSACTION ISOLATION LEVEL ; \n").unwrap(), answer);
    assert_eq!(
        prepare_sql("SHOW transaction_isolation;;").unwrap(),
        "SHOW transaction_isolation;;"
    );
    assert_eq!(
        prepare_sql("SHOW transaction_isolation; SELECT 1").unwrap(),
        "SHOW transaction_isolation; SELECT 1"
    );
    assert_eq!(prepare_sql(";").unwrap(), ";");
    assert_eq!(prepare_sql(" ; ").unwrap(), " ; ");
}

#[test]
fn other_show_statements_pass_unchanged() {
    assert_eq!(prepare_sql("SHOW timezone").unwrap(), "SHOW timezone");
    assert_eq!(
        prepare_sql("SHOW TRANSACTION ISOLATION LEVELS").unwrap(),
        "SHOW TRANSACTION ISOLATION LEVELS"
    );
    assert_eq!(
        prepare_sql("SHOW TRANSACTION  ISOLATION LEVEL").unwrap(),
        "SHOW TRANSACTION  ISOLATION LEVEL"
    );
}

#[test]
fn statements_that_define_data_are_refused() {
    assert!(matches!(
        prepare_sql("CREATE TABLE t (a INT)"),
        Err(TimeFusionError::Unimplemented(_))
    ));
    assert!(matches!(prepare_sql("  drop table t"), Err(TimeFusionError::Unimplemented(_))));
    assert!(matches!(
        prepare_sql("Alter Table t ADD COLUMN b INT"),
        Err(TimeFusionError::Unimplemented(_))
    ));
    assert!(prepare_sql("SELECT 'create'").is_ok());
    assert!(prepare_sql("created").is_ok());
    assert!(prepare_sql("dropped::regclass").is_ok());
}
