use rustchain::chains::sql::{
    ColumnSchemaBuilder, DatabaseSchema, SQLQueryValidator, TableSchemaBuilder, TextToSQLChain,
};
use rustchain::error::RustChainError;

fn sample_schema() -> DatabaseSchema {
    DatabaseSchema::builder()
        .table(
            TableSchemaBuilder::new("users")
                .column(ColumnSchemaBuilder::new("id", "INTEGER").not_null().primary_key().build())
                .column(ColumnSchemaBuilder::new("name", "VARCHAR(255)").not_null().build())
                .column(ColumnSchemaBuilder::new("email", "VARCHAR(255)").build())
                .description("User accounts")
                .build(),
        )
        .build()
}

#[test]
fn test_schema_ddl_generation() {
    let schema = sample_schema();
    let ddl = schema.to_ddl();
    assert!(ddl.contains("CREATE TABLE users"));
    assert!(ddl.contains("id INTEGER NOT NULL PRIMARY KEY"));
    assert!(ddl.contains("name VARCHAR(255) NOT NULL"));
    assert!(ddl.contains("email VARCHAR(255)"));
    assert!(ddl.contains("-- User accounts"));
}

#[test]
fn test_database_schema_builder() {
    let schema = DatabaseSchema::builder()
        .table(
            TableSchemaBuilder::new("products")
                .column(ColumnSchemaBuilder::new("id", "INTEGER").primary_key().not_null().build())
                .column(ColumnSchemaBuilder::new("price", "DECIMAL(10,2)").not_null().build())
                .description("Product catalog")
                .build(),
        )
        .build();

    assert_eq!(schema.tables.len(), 1);
    assert_eq!(schema.tables[0].name, "products");
    assert_eq!(schema.tables[0].columns.len(), 2);
    assert_eq!(schema.tables[0].description.as_deref(), Some("Product catalog"));
}

#[test]
fn test_table_schema_all_column_types() {
    let table = TableSchemaBuilder::new("test_table")
        .column(ColumnSchemaBuilder::new("pk", "INTEGER").primary_key().not_null().build())
        .column(ColumnSchemaBuilder::new("text_col", "TEXT").build())
        .column(ColumnSchemaBuilder::new("bool_col", "BOOLEAN").not_null().build())
        .column(ColumnSchemaBuilder::new("ts_col", "TIMESTAMP").build())
        .column(ColumnSchemaBuilder::new("float_col", "FLOAT").nullable(false).build())
        .build();

    assert_eq!(table.columns.len(), 5);
    assert!(table.columns[0].primary_key);
    assert!(!table.columns[0].nullable);
    assert!(table.columns[1].nullable);
    assert!(!table.columns[2].nullable);
    assert!(table.columns[3].nullable);
    assert!(!table.columns[4].nullable);
}

#[test]
fn test_custom_allowed_operations() {
    let validator = SQLQueryValidator::with_disallowed(&["DROP", "TRUNCATE"]);
    assert!(validator.validate("DELETE FROM users WHERE id = 1").is_ok());
    assert!(validator.validate("DROP TABLE users").is_err());
    assert!(validator.validate("TRUNCATE TABLE users").is_err());
    assert!(validator.validate("SELECT * FROM users").is_ok());
}

#[test]
fn test_multi_table_schema() {
    let schema = DatabaseSchema::builder()
        .table(
            TableSchemaBuilder::new("orders")
                .column(ColumnSchemaBuilder::new("id", "INTEGER").primary_key().not_null().build())
                .column(ColumnSchemaBuilder::new("user_id", "INTEGER").not_null().build())
                .column(ColumnSchemaBuilder::new("total", "DECIMAL(10,2)").build())
                .description("Customer orders")
                .build(),
        )
        .table(
            TableSchemaBuilder::new("order_items")
                .column(ColumnSchemaBuilder::new("id", "INTEGER").primary_key().not_null().build())
                .column(ColumnSchemaBuilder::new("order_id", "INTEGER").not_null().build())
                .column(ColumnSchemaBuilder::new("product", "VARCHAR(255)").build())
                .column(ColumnSchemaBuilder::new("quantity", "INTEGER").not_null().build())
                .build(),
        )
        .build();

    let ddl = schema.to_ddl();
    assert!(ddl.contains("CREATE TABLE orders"));
    assert!(ddl.contains("CREATE TABLE order_items"));
    assert!(ddl.contains("-- Customer orders"));
    assert_eq!(schema.tables.len(), 2);
    assert_eq!(schema.tables[0].columns.len(), 3);
    assert_eq!(schema.tables[1].columns.len(), 4);
}

#[test]
fn default_validator_rejects_writes() {
    let v = SQLQueryValidator::new();
    assert!(v.validate("SELECT 1").is_ok());
    assert!(v.validate("drop table users").is_err());
    assert!(v.validate("DELETE FROM users").is_err());
    assert!(v.validate("SELECT dropped FROM t").is_ok());
    let p = SQLQueryValidator::permissive();
    assert!(p.validate("DROP TABLE users").is_ok());
}

#[test]
fn test_from_ddl_parsing() {
    let ddl = r#"
CREATE TABLE users (
  id INTEGER NOT NULL PRIMARY KEY,
  name VARCHAR(255) NOT NULL,
  email TEXT
);
        "#;
    let schema = DatabaseSchema::from_ddl(ddl).unwrap();
    assert_eq!(schema.tables.len(), 1);
    assert_eq!(schema.tables[0].name, "users");
    assert_eq!(schema.tables[0].columns.len(), 3);
    assert_eq!(schema.tables[0].columns[0].name, "id");
    assert!(!schema.tables[0].columns[0].nullable);
    assert!(schema.tables[0].columns[0].primary_key);
    assert_eq!(schema.tables[0].columns[1].name, "name");
    assert!(!schema.tables[0].columns[1].nullable);
    assert!(schema.tables[0].columns[2].nullable);
}

#[test]
fn from_ddl_skips_constraints_and_reads_many_tables() {
    let ddl = "create table a (x INT, PRIMARY KEY (x), y);\nCREATE TABLE b (\n z TEXT not null\n);";
    let schema = DatabaseSchema::from_ddl(ddl).unwrap();
    assert_eq!(schema.tables.len(), 2);
    assert_eq!(schema.tables[0].columns.len(), 1);
    assert_eq!(schema.tables[0].columns[0].column_type, "INT");
    assert_eq!(schema.tables[1].name, "b");
    assert!(!schema.tables[1].columns[0].nullable);
    match DatabaseSchema::from_ddl("SELECT 1;") {
        Err(RustChainError::Other(m)) => assert_eq!(m, "No CREATE TABLE statements found in DDL"),
        other => panic!("unexpected {other:?}"),
    }
}

#[test]
fn test_sql_extraction_from_plain_code_block() {
    let response = "```\nSELECT name FROM users;\n```";
    assert_eq!(TextToSQLChain::extract_sql(response), "SELECT name FROM users;");
}

#[test]
fn test_sql_extraction_from_markdown_code_blocks() {
    let response = "Here is the SQL:\n```sql\nSELECT * FROM users WHERE id = 1;\n```";
    assert_eq!(TextToSQLChain::extract_sql(response), "SELECT * FROM users WHERE id = 1;");
    assert_eq!(TextToSQLChain::extract_sql("  SELECT 1  "), "SELECT 1");
}

#[test]
fn text_to_sql_builder_and_check() {
    let chain = TextToSQLChain::builder().schema(sample_schema()).build();
    assert!(chain.validate_sql);
    assert!(chain.include_schema_in_prompt);
    assert!(chain.prompt_template.contains("{schema}"));
    assert!(chain.check_sql("DROP TABLE users").is_err());
    assert!(chain.check_sql("SELECT 1").is_ok());
    let lax = TextToSQLChain::builder().schema(sample_schema()).validate_sql(false).include_schema_in_prompt(false).build();
    assert!(lax.check_sql("DROP TABLE users").is_ok());
    assert!(!lax.include_schema_in_prompt);
}
