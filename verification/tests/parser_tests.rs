use ez_migrations::parser::{KeepStrategy, MigrationParser, SqlStatement};
use ez_migrations::sql_object::extract_sql_object_name;

fn sample_migration(up: &str, down: &str) -> String {
    format!(
        r#"using Microsoft.EntityFrameworkCore.Migrations;

namespace MyApp.Migrations
{{
    public partial class TestMigration : Migration
    {{
        protected override void Up(MigrationBuilder migrationBuilder)
        {{
{up}
        }}

        protected override void Down(MigrationBuilder migrationBuilder)
        {{
{down}
        }}
    }}
}}
"#
    )
}

const FILE: &str = "/tmp/20240101000000_Test.cs";

// ─── extract_method_body ─────────────────────────────────────

#[test]
fn extracts_up_method_body() {
    let content = sample_migration("            // up body marker", "            // down body marker");
    let body = MigrationParser::extract_method_body(&content, "Up");
    assert!(body.contains("up body marker"));
    assert!(!body.contains("down body marker"));
}

#[test]
fn extracts_down_method_body() {
    let content = sample_migration("            // up body marker", "            // down body marker");
    let body = MigrationParser::extract_method_body(&content, "Down");
    assert!(body.contains("down body marker"));
    assert!(!body.contains("up body marker"));
}

#[test]
fn returns_empty_string_when_method_missing() {
    let content = "public class Foo { void Bar() {} }";
    let body = MigrationParser::extract_method_body(content, "Up");
    assert_eq!(body, "");
}

#[test]
fn handles_nested_braces_in_method_body() {
    let content = sample_migration(
        r#"            if (true) { /* inner */ }
            migrationBuilder.Sql("SELECT 1");"#,
        "",
    );
    let body = MigrationParser::extract_method_body(&content, "Up");
    assert!(body.contains("SELECT 1"));
    assert!(body.contains("inner"));
}

#[test]
fn handles_string_literals_containing_braces() {
    let content = sample_migration(
        r#"            migrationBuilder.Sql("CREATE PROC x AS BEGIN SELECT 1 END");"#,
        "",
    );
    let body = MigrationParser::extract_method_body(&content, "Up");
    assert!(body.contains("CREATE PROC"));
}

#[test]
fn method_body_is_trimmed_and_exact() {
    let content = "protected override void Up(MigrationBuilder b)\n{\n    x();\n}\n";
    assert_eq!(MigrationParser::extract_method_body(content, "Up"), "x();");
}

#[test]
fn braces_inside_string_literals_do_not_close_the_method() {
    let content = r#"protected override void Up(M b) { s("}"); v(@"x""}"); t(); }"#;
    assert_eq!(MigrationParser::extract_method_body(content, "Up"), r#"s("}"); v(@"x""}"); t();"#);
}

// ─── extract_custom_sql ──────────────────────────────────────

#[test]
fn extracts_simple_sql_string() {
    let body = r#"migrationBuilder.Sql("SELECT 1");"#;
    let sqls = MigrationParser::extract_custom_sql(body);
    assert_eq!(sqls.len(), 1);
    assert_eq!(sqls[0].sql, "SELECT 1");
}

#[test]
fn extracts_verbatim_string() {
    let body = r#"migrationBuilder.Sql(@"SELECT ""foo""");"#;
    let sqls = MigrationParser::extract_custom_sql(body);
    assert_eq!(sqls.len(), 1);
    assert_eq!(sqls[0].sql, r#"SELECT "foo""#);
}

#[test]
fn extracts_multiple_sql_statements() {
    let body = r#"
            migrationBuilder.Sql("CREATE PROCEDURE p1 AS SELECT 1");
            migrationBuilder.CreateTable("X");
            migrationBuilder.Sql("CREATE PROCEDURE p2 AS SELECT 2");
        "#;
    let sqls = MigrationParser::extract_custom_sql(body);
    assert_eq!(sqls.len(), 2);
    assert!(sqls[0].sql.contains("p1"));
    assert!(sqls[1].sql.contains("p2"));
}

#[test]
fn records_operation_indices_among_all_calls() {
    let body = r#"
            migrationBuilder.CreateTable("T1");
            migrationBuilder.Sql("S1");
            migrationBuilder.AddColumn("c");
            migrationBuilder.Sql("S2");
        "#;
    let sqls = MigrationParser::extract_custom_sql(body);
    assert_eq!(sqls.len(), 2);
    assert_eq!(sqls[0].operation_index, 1);
    assert_eq!(sqls[1].operation_index, 3);
    assert_eq!(sqls[0].total_operations, 4);
    assert_eq!(sqls[1].total_operations, 4);
}

#[test]
fn returns_empty_when_no_sql_calls() {
    let body = r#"
            migrationBuilder.CreateTable("Foo");
            migrationBuilder.DropTable("Bar");
        "#;
    let sqls = MigrationParser::extract_custom_sql(body);
    assert!(sqls.is_empty());
}

#[test]
fn handles_escape_sequences_in_normal_string() {
    let body = r#"migrationBuilder.Sql("line1\nline2\ttab");"#;
    let sqls = MigrationParser::extract_custom_sql(body);
    assert_eq!(sqls.len(), 1);
    assert_eq!(sqls[0].sql, "line1\nline2\ttab");
}

#[test]
fn sql_call_with_more_arguments_is_not_custom_sql() {
    let body = r#"migrationBuilder.Sql("EXEC sp_x", suppressTransaction: true);"#;
    let sqls = MigrationParser::extract_custom_sql(body);
    assert!(sqls.is_empty());
}

// ─── parsing a whole source ──────────────────────────────────

#[test]
fn extracts_sql_from_parsed_file() {
    let content = sample_migration(
        r#"            migrationBuilder.Sql("CREATE PROCEDURE foo AS SELECT 1");"#,
        r#"            migrationBuilder.Sql("DROP PROCEDURE foo");"#,
    );
    let parsed = MigrationParser::parse_source(FILE, &content);
    assert!(parsed.has_custom_sql);
    assert_eq!(parsed.custom_sql_up.len(), 1);
    assert_eq!(parsed.custom_sql_down.len(), 1);
    assert!(parsed.custom_sql_up[0].sql.contains("CREATE PROCEDURE foo"));
    assert!(parsed.custom_sql_down[0].sql.contains("DROP PROCEDURE foo"));
    assert_eq!(parsed.file_name, "20240101000000_Test");
}

#[test]
fn parsed_file_with_only_up_sql() {
    let content = sample_migration(
        r#"            migrationBuilder.Sql("SELECT 1");"#,
        r#"            migrationBuilder.DropTable("X");"#,
    );
    let parsed = MigrationParser::parse_source(FILE, &content);
    assert!(parsed.has_custom_sql);
    assert_eq!(parsed.custom_sql_up.len(), 1);
    assert!(parsed.custom_sql_down.is_empty());
}

#[test]
fn parsed_file_with_no_custom_sql() {
    let content = sample_migration(
        r#"            migrationBuilder.CreateTable("T");"#,
        r#"            migrationBuilder.DropTable("T");"#,
    );
    let parsed = MigrationParser::parse_source(FILE, &content);
    assert!(!parsed.has_custom_sql);
    assert!(parsed.custom_sql_up.is_empty());
    assert!(parsed.custom_sql_down.is_empty());
}

#[test]
fn sql_strings_up_returns_just_strings() {
    let content = sample_migration(
        r#"            migrationBuilder.Sql("A");
            migrationBuilder.Sql("B");"#,
        r#"            migrationBuilder.Sql("C");"#,
    );
    let parsed = MigrationParser::parse_source(FILE, &content);
    assert_eq!(parsed.sql_strings_up(), vec!["A".to_string(), "B".to_string()]);
    assert_eq!(parsed.sql_strings_down(), vec!["C".to_string()]);
}

// ─── deduplicate_sql ─────────────────────────────────────────

fn stmt(sql: &str) -> SqlStatement {
    SqlStatement { sql: sql.to_string(), operation_index: 0, total_operations: 0 }
}

#[test]
fn dedupe_last_keeps_newest_version() {
    let stmts = vec![
        stmt("CREATE PROCEDURE [dbo].[GetUsers] AS SELECT 1"),
        stmt("CREATE OR ALTER PROCEDURE [dbo].[GetUsers] AS SELECT 2"),
    ];
    let result = MigrationParser::deduplicate_sql(stmts, KeepStrategy::Last);
    assert_eq!(result.len(), 1);
    assert!(result[0].sql.contains("SELECT 2"));
}

#[test]
fn dedupe_first_keeps_oldest_version() {
    let stmts = vec![
        stmt("CREATE PROCEDURE [dbo].[GetUsers] AS SELECT 1"),
        stmt("CREATE OR ALTER PROCEDURE [dbo].[GetUsers] AS SELECT 2"),
    ];
    let result = MigrationParser::deduplicate_sql(stmts, KeepStrategy::First);
    assert_eq!(result.len(), 1);
    assert!(result[0].sql.contains("SELECT 1"));
}

#[test]
fn dedupe_treats_different_objects_independently() {
    let stmts = vec![
        stmt("CREATE PROCEDURE [dbo].[A] AS SELECT 1"),
        stmt("CREATE PROCEDURE [dbo].[B] AS SELECT 2"),
        stmt("CREATE OR ALTER PROCEDURE [dbo].[A] AS SELECT 3"),
    ];
    let result = MigrationParser::deduplicate_sql(stmts, KeepStrategy::Last);
    assert_eq!(result.len(), 2);
    let a = result.iter().find(|s| s.sql.contains("[A]")).unwrap();
    assert!(a.sql.contains("SELECT 3"));
    assert!(result.iter().any(|s| s.sql.contains("[B]")));
}

#[test]
fn dedupe_preserves_statements_with_no_recognized_object() {
    let stmts = vec![stmt("INSERT INTO Foo VALUES (1)"), stmt("UPDATE Bar SET x = 1")];
    let result = MigrationParser::deduplicate_sql(stmts, KeepStrategy::Last);
    assert_eq!(result.len(), 2);
}

#[test]
fn dedupe_handles_views_and_functions() {
    let stmts = vec![
        stmt("CREATE VIEW dbo.MyView AS SELECT 1"),
        stmt("CREATE OR ALTER VIEW dbo.MyView AS SELECT 2"),
        stmt("CREATE FUNCTION dbo.MyFunc() RETURNS INT AS BEGIN RETURN 1 END"),
    ];
    let result = MigrationParser::deduplicate_sql(stmts, KeepStrategy::Last);
    assert_eq!(result.len(), 2);
    let view = result.iter().find(|s| s.sql.contains("VIEW")).unwrap();
    assert!(view.sql.contains("SELECT 2"));
}

#[test]
fn dedupe_keeps_order_of_survivors() {
    let stmts = vec![
        stmt("CREATE PROCEDURE [dbo].[A] AS SELECT 1"),
        stmt("INSERT INTO T VALUES (1)"),
        stmt("CREATE PROCEDURE [dbo].[B] AS SELECT 2"),
        stmt("ALTER PROCEDURE dbo.A AS SELECT 3"),
    ];
    let result = MigrationParser::deduplicate_sql(stmts, KeepStrategy::Last);
    let texts: Vec<&str> = result.iter().map(|s| s.sql.as_str()).collect();
    assert_eq!(
        texts,
        vec!["INSERT INTO T VALUES (1)", "CREATE PROCEDURE [dbo].[B] AS SELECT 2", "ALTER PROCEDURE dbo.A AS SELECT 3"]
    );
}

#[test]
fn extract_sql_object_name_normalizes_brackets_and_case() {
    assert_eq!(
        extract_sql_object_name("create or alter procedure [dbo].[GetUsers] as select 1").as_deref(),
        Some("PROCEDURE.DBO.GETUSERS")
    );
    assert_eq!(extract_sql_object_name("CREATE VIEW dbo.MyView AS SELECT 1").as_deref(), Some("VIEW.DBO.MYVIEW"));
    assert!(extract_sql_object_name("INSERT INTO Foo VALUES (1)").is_none());
}

// ─── inject_custom_sql ───────────────────────────────────────

#[test]
fn injects_sql_into_up_method() {
    let content = sample_migration(
        r#"            migrationBuilder.CreateTable("X");"#,
        r#"            migrationBuilder.DropTable("X");"#,
    );
    let sqls = vec![stmt("CREATE PROCEDURE p AS SELECT 1")];
    let written = MigrationParser::inject_custom_sql_into(&content, "Up", &sqls).unwrap();
    assert!(written.contains(r#"migrationBuilder.Sql(@"CREATE PROCEDURE p AS SELECT 1");"#));
    let parsed = MigrationParser::parse_source(FILE, &written);
    assert_eq!(parsed.custom_sql_up.len(), 1);
    assert!(parsed.custom_sql_down.is_empty());
}

#[test]
fn injects_sql_into_down_method() {
    let content = sample_migration(
        r#"            migrationBuilder.CreateTable("X");"#,
        r#"            migrationBuilder.DropTable("X");"#,
    );
    let sqls = vec![stmt("DROP PROCEDURE p")];
    let written = MigrationParser::inject_custom_sql_into(&content, "Down", &sqls).unwrap();
    let parsed = MigrationParser::parse_source(FILE, &written);
    assert!(parsed.custom_sql_up.is_empty());
    assert_eq!(parsed.custom_sql_down.len(), 1);
    assert!(parsed.custom_sql_down[0].sql.contains("DROP PROCEDURE p"));
}

#[test]
fn injects_sql_with_embedded_quotes_using_verbatim_escape() {
    let content = sample_migration("", "");
    let sqls = vec![stmt(r#"PRINT "hello""#)];
    let written = MigrationParser::inject_custom_sql_into(&content, "Up", &sqls).unwrap();
    let parsed = MigrationParser::parse_source(FILE, &written);
    assert_eq!(parsed.custom_sql_up.len(), 1);
    assert_eq!(parsed.custom_sql_up[0].sql, r#"PRINT "hello""#);
}

#[test]
fn inject_fails_when_method_not_found() {
    let content = "public class Foo { void Bar() {} }";
    let sqls = vec![stmt("SELECT 1")];
    let result = MigrationParser::inject_custom_sql_into(content, "Up", &sqls);
    assert!(result.is_err());
    assert_eq!(result.unwrap_err(), "Could not find Up method in migration file");
}

#[test]
fn injected_statements_follow_existing_operations_in_order() {
    let content = sample_migration(r#"            migrationBuilder.CreateTable("X");"#, "");
    let sqls = vec![stmt("S1"), stmt("S2")];
    let written = MigrationParser::inject_custom_sql_into(&content, "Up", &sqls).unwrap();
    let parsed = MigrationParser::parse_source(FILE, &written);
    let texts: Vec<String> = parsed.sql_strings_up();
    assert_eq!(texts, vec!["S1".to_string(), "S2".to_string()]);
    assert_eq!(parsed.custom_sql_up[0].operation_index, 1);
    assert_eq!(parsed.custom_sql_up[1].operation_index, 2);
}

#[test]
fn injected_sql_reads_back_after_the_methods_own_sql() {
    let content = sample_migration(
        "            migrationBuilder.CreateTable(\"X\", table => new { Id = table.Column<int>() });\n            migrationBuilder.Sql(\"SELECT 0\");",
        "",
    );
    let before = MigrationParser::parse_source(FILE, &content).sql_strings_up();
    assert_eq!(before, vec!["SELECT 0".to_string()]);
    let sqls = vec![stmt("CREATE VIEW v AS SELECT '{' AS b"), stmt(r#"PRINT "done")"#)];
    let written = MigrationParser::inject_custom_sql_into(&content, "Up", &sqls).unwrap();
    let after = MigrationParser::parse_source(FILE, &written).sql_strings_up();
    assert_eq!(
        after,
        vec![
            "SELECT 0".to_string(),
            "CREATE VIEW v AS SELECT '{' AS b".to_string(),
            r#"PRINT "done")"#.to_string(),
        ]
    );
}

// ─── get_migration_file ──────────────────────────────────────

#[test]
fn get_migration_file_matches_by_stem_in_either_direction() {
    let files = vec![
        "/p/Migrations/20240101_Init.cs".to_string(),
        "/p/Migrations/20240202_AddUsers.cs".to_string(),
    ];
    assert_eq!(
        MigrationParser::get_migration_file(&files, "20240202_AddUsers").as_deref(),
        Some("/p/Migrations/20240202_AddUsers.cs")
    );
    assert_eq!(
        MigrationParser::get_migration_file(&files, "20240101_Init_Extra").as_deref(),
        Some("/p/Migrations/20240101_Init.cs")
    );
    assert!(MigrationParser::get_migration_file(&files, "Nope").is_none());
}
