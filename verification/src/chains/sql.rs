//! Database schemas rendered as DDL for text-to-SQL prompts, and the check
//! that keeps generated SQL free of disallowed operations.

use vstd::prelude::*;
use vstd::string::*;
use crate::error::RustChainError;
use crate::chains::template::{fill_template, template_filled};
use crate::json::JsonValue;
use crate::regexes::{captures_all, captures_view, regex_captures};
use crate::text::{
    char_is_alphanumeric, char_is_whitespace, contains_seq, contains_str, is_alphanumeric,
    is_whitespace, push_char, push_string, starts_with, str_eq, string_of_chars, chars_of,
    to_uppercase, trim_text, trim_ws, uppercase_of,
};

verus! {

// ---------------------------------------------------------------------------
// Column & Table schema types
// ---------------------------------------------------------------------------

/// Describes a single column in a database table.
#[derive(Debug, Clone)]
pub struct ColumnSchema {
    /// Column name.
    pub name: String,
    /// SQL type (e.g. `"INTEGER"`, `"VARCHAR(255)"`).
    pub column_type: String,
    /// Whether the column is nullable. Default `true`.
    pub nullable: bool,
    /// Whether this column is part of the primary key.
    pub primary_key: bool,
}

/// Builder for [`ColumnSchema`].
pub struct ColumnSchemaBuilder {
    name: String,
    column_type: String,
    nullable: bool,
    primary_key: bool,
}

impl ColumnSchemaBuilder {
    /// The column this builder would build now.
    pub closed spec fn pending(&self) -> ColumnSchema {
        ColumnSchema {
            name: self.name,
            column_type: self.column_type,
            nullable: self.nullable,
            primary_key: self.primary_key,
        }
    }

    /// Create a builder with the required column name and type: nullable,
    /// not part of the primary key.
    pub fn new(name: &str, column_type: &str) -> (r: Self)
        ensures
            r.pending().name@ == name@,
            r.pending().column_type@ == column_type@,
            r.pending().nullable,
            !r.pending().primary_key,
    {
        ColumnSchemaBuilder {
            name: String::from_str(name),
            column_type: String::from_str(column_type),
            nullable: true,
            primary_key: false,
        }
    }

    /// Mark this column as NOT NULL.
    pub fn not_null(self) -> (r: Self)
        ensures
            r.pending() == (ColumnSchema { nullable: false, ..self.pending() }),
    {
        ColumnSchemaBuilder { nullable: false, ..self }
    }

    /// Mark this column as nullable (the default).
    pub fn nullable(self, nullable: bool) -> (r: Self)
        ensures
            r.pending() == (ColumnSchema { nullable, ..self.pending() }),
    {
        ColumnSchemaBuilder { nullable, ..self }
    }

    /// Mark this column as a primary key.
    pub fn primary_key(self) -> (r: Self)
        ensures
            r.pending() == (ColumnSchema { primary_key: true, ..self.pending() }),
    {
        ColumnSchemaBuilder { primary_key: true, ..self }
    }

    /// Build the [`ColumnSchema`].
    pub fn build(self) -> (r: ColumnSchema)
        ensures
            r == self.pending(),
    {
        ColumnSchema {
            name: self.name,
            column_type: self.column_type,
            nullable: self.nullable,
            primary_key: self.primary_key,
        }
    }
}

/// Describes a database table.
#[derive(Debug, Clone)]
pub struct TableSchema {
    /// Table name.
    pub name: String,
    /// Columns in the table.
    pub columns: Vec<ColumnSchema>,
    /// Optional human-readable description.
    pub description: Option<String>,
}

/// Builder for [`TableSchema`].
pub struct TableSchemaBuilder {
    name: String,
    columns: Vec<ColumnSchema>,
    description: Option<String>,
}

impl TableSchemaBuilder {
    /// The table this builder would build now.
    pub closed spec fn pending(&self) -> TableSchema {
        TableSchema { name: self.name, columns: self.columns, description: self.description }
    }

    /// Create a builder with the required table name.
    pub fn new(name: &str) -> (r: Self)
        ensures
            r.pending().name@ == name@,
            r.pending().columns@ == Seq::<ColumnSchema>::empty(),
            r.pending().description is None,
    {
        TableSchemaBuilder { name: String::from_str(name), columns: Vec::new(), description: None }
    }

    /// Add a column to the table.
    pub fn column(self, column: ColumnSchema) -> (r: Self)
        ensures
            r.pending().name == self.pending().name,
            r.pending().columns@ == self.pending().columns@.push(column),
            r.pending().description == self.pending().description,
    {
        let mut b = self;
        b.columns.push(column);
        b
    }

    /// Set the table description.
    pub fn description(self, desc: &str) -> (r: Self)
        ensures
            r.pending().name == self.pending().name,
            r.pending().columns == self.pending().columns,
            r.pending().description matches Some(d) && d@ == desc@,
    {
        TableSchemaBuilder { description: Some(String::from_str(desc)), ..self }
    }

    /// Build the [`TableSchema`].
    pub fn build(self) -> (r: TableSchema)
        ensures
            r == self.pending(),
    {
        TableSchema { name: self.name, columns: self.columns, description: self.description }
    }
}

// ---------------------------------------------------------------------------
// DatabaseSchema
// ---------------------------------------------------------------------------

/// Represents the schema of a database (a collection of tables).
#[derive(Debug, Clone)]
pub struct DatabaseSchema {
    /// All tables in the database.
    pub tables: Vec<TableSchema>,
}

/// Builder for [`DatabaseSchema`].
pub struct DatabaseSchemaBuilder {
    tables: Vec<TableSchema>,
}

impl DatabaseSchemaBuilder {
    /// The schema this builder would build now.
    pub closed spec fn pending(&self) -> DatabaseSchema {
        DatabaseSchema { tables: self.tables }
    }

    /// Create a new empty builder.
    pub fn new() -> (r: Self)
        ensures
            r.pending().tables@ == Seq::<TableSchema>::empty(),
    {
        DatabaseSchemaBuilder { tables: Vec::new() }
    }

    /// Add a table to the schema.
    pub fn table(self, table: TableSchema) -> (r: Self)
        ensures
            r.pending().tables@ == self.pending().tables@.push(table),
    {
        let mut b = self;
        b.tables.push(table);
        b
    }

    /// Build the [`DatabaseSchema`].
    pub fn build(self) -> (r: DatabaseSchema)
        ensures
            r == self.pending(),
    {
        DatabaseSchema { tables: self.tables }
    }
}

impl Default for DatabaseSchemaBuilder {
    fn default() -> (r: Self)
        ensures
            r.pending().tables@ == Seq::<TableSchema>::empty(),
    {
        Self::new()
    }
}

// ---------------------------------------------------------------------------
// DDL
// ---------------------------------------------------------------------------

/// The names of the primary-key columns among `cols[0..n)`.
pub open spec fn pk_names(cols: Seq<ColumnSchema>, n: nat) -> Seq<Seq<char>>
    decreases n,
{
    if n == 0 || n > cols.len() {
        Seq::<Seq<char>>::empty()
    } else if cols[n - 1].primary_key {
        pk_names(cols, (n - 1) as nat).push(cols[n - 1].name@)
    } else {
        pk_names(cols, (n - 1) as nat)
    }
}

/// The first `n` texts joined with `", "`.
pub open spec fn comma_join(v: Seq<Seq<char>>, n: nat) -> Seq<char>
    decreases n,
{
    if n == 0 || n > v.len() {
        Seq::<char>::empty()
    } else if n == 1 {
        v[0]
    } else {
        comma_join(v, (n - 1) as nat) + ", "@ + v[n - 1]
    }
}

/// The line of column `j` of `ncols`, in a table with `pk` primary-key columns.
pub open spec fn column_line(c: ColumnSchema, j: nat, ncols: nat, pk: nat) -> Seq<char> {
    "  "@ + c.name@ + " "@ + c.column_type@ + (if !c.nullable {
        " NOT NULL"@
    } else {
        Seq::<char>::empty()
    }) + (if c.primary_key && pk == 1 {
        " PRIMARY KEY"@
    } else {
        Seq::<char>::empty()
    }) + (if j + 1 < ncols || pk > 1 {
        ","@
    } else {
        Seq::<char>::empty()
    }) + "\n"@
}

/// The lines of the first `n` columns of a table.
pub open spec fn column_lines(cols: Seq<ColumnSchema>, n: nat, pk: nat) -> Seq<char>
    decreases n,
{
    if n == 0 || n > cols.len() {
        Seq::<char>::empty()
    } else {
        column_lines(cols, (n - 1) as nat, pk) + column_line(cols[n - 1], (n - 1) as nat, cols.len(), pk)
    }
}

/// The `CREATE TABLE` statement of one table, after its description comment.
pub open spec fn table_ddl(t: TableSchema) -> Seq<char> {
    let cols = t.columns@;
    let pks = pk_names(cols, cols.len());
    (match t.description {
        Some(d) => "-- "@ + d@ + "\n"@,
        None => Seq::<char>::empty(),
    }) + "CREATE TABLE "@ + t.name@ + " (\n"@ + column_lines(cols, cols.len(), pks.len()) + (if pks.len() > 1 {
        "  PRIMARY KEY ("@ + comma_join(pks, pks.len()) + ")\n"@
    } else {
        Seq::<char>::empty()
    }) + ");"@
}

/// The statements of the first `n` tables, separated by blank lines.
pub open spec fn tables_ddl(ts: Seq<TableSchema>, n: nat) -> Seq<char>
    decreases n,
{
    if n == 0 || n > ts.len() {
        Seq::<char>::empty()
    } else if n == 1 {
        table_ddl(ts[0])
    } else {
        tables_ddl(ts, (n - 1) as nat) + "\n\n"@ + table_ddl(ts[n - 1])
    }
}

/// Whether a column is part of the primary key.
pub open spec fn is_key_column() -> spec_fn(ColumnSchema) -> bool {
    |c: ColumnSchema| c.primary_key
}

/// The names of a table's primary-key columns, in column order.
pub open spec fn key_names(t: TableSchema) -> Seq<Seq<char>> {
    t.columns@.filter(is_key_column()).map_values(|c: ColumnSchema| c.name@)
}

/// How a column that is the table's only primary-key column starts its
/// line: name, type, `NOT NULL` when it is not nullable, and `PRIMARY KEY`.
pub open spec fn inline_key_text(c: ColumnSchema) -> Seq<char> {
    "  "@ + c.name@ + " "@ + c.column_type@ + (if !c.nullable {
        " NOT NULL"@
    } else {
        Seq::<char>::empty()
    }) + " PRIMARY KEY"@
}

proof fn lemma_pk_names_filter(cols: Seq<ColumnSchema>, n: nat)
    requires
        n <= cols.len(),
    ensures
        pk_names(cols, n) == cols.take(n as int).filter(is_key_column()).map_values(|c: ColumnSchema| c.name@),
    decreases n,
{
    reveal(Seq::filter);
    if n == 0 {
        assert(cols.take(0) =~= Seq::<ColumnSchema>::empty());
        assert(cols.take(0).filter(is_key_column()) =~= Seq::<ColumnSchema>::empty());
        assert(cols.take(0).filter(is_key_column()).map_values(|c: ColumnSchema| c.name@) =~= Seq::<
            Seq<char>,
        >::empty());
    } else {
        lemma_pk_names_filter(cols, (n - 1) as nat);
        let t = cols.take(n as int);
        assert(t.drop_last() =~= cols.take(n - 1));
        assert(t.last() == cols[n - 1]);
        let f = t.drop_last().filter(is_key_column());
        assert(t.filter(is_key_column()) == if is_key_column()(t.last()) {
            f.push(t.last())
        } else {
            f
        });
        assert(f.push(t.last()).map_values(|c: ColumnSchema| c.name@) =~= f.map_values(
            |c: ColumnSchema| c.name@,
        ).push(t.last().name@));
    }
}

/// `p` occurs in the middle of `a + p + z`.
proof fn lemma_contains_middle(a: Seq<char>, p: Seq<char>, z: Seq<char>)
    ensures
        contains_seq(a + p + z, p),
{
    let s = a + p + z;
    assert(s.subrange(a.len() as int, (a.len() + p.len()) as int) =~= p);
}

/// Occurrence carries over: `p` in `t` and `t` in `s` puts `p` in `s`.
proof fn lemma_contains_trans(s: Seq<char>, t: Seq<char>, p: Seq<char>)
    requires
        contains_seq(s, t),
        contains_seq(t, p),
    ensures
        contains_seq(s, p),
{
    let i = choose|i: int| 0 <= i && i + t.len() <= s.len() && #[trigger] s.subrange(i, i + t.len()) == t;
    let j = choose|j: int| 0 <= j && j + p.len() <= t.len() && #[trigger] t.subrange(j, j + p.len()) == p;
    assert(s.subrange(i + j, i + j + p.len()) =~= t.subrange(j, j + p.len()));
}

/// The statements of the first `n` tables hold each of those tables' statement.
proof fn lemma_tables_hold(ts: Seq<TableSchema>, n: nat, k: int)
    requires
        0 <= k < n <= ts.len(),
    ensures
        contains_seq(tables_ddl(ts, n), table_ddl(ts[k])),
    decreases n,
{
    if n == 1 {
        lemma_contains_middle(Seq::<char>::empty(), table_ddl(ts[0]), Seq::<char>::empty());
        assert(Seq::<char>::empty() + table_ddl(ts[0]) + Seq::<char>::empty() =~= table_ddl(ts[0]));
    } else if k == n - 1 {
        lemma_contains_middle(tables_ddl(ts, (n - 1) as nat) + "\n\n"@, table_ddl(ts[k]), Seq::<char>::empty());
        assert(tables_ddl(ts, (n - 1) as nat) + "\n\n"@ + table_ddl(ts[k]) + Seq::<char>::empty() =~= tables_ddl(ts, n));
    } else {
        lemma_tables_hold(ts, (n - 1) as nat, k);
        let pre = tables_ddl(ts, (n - 1) as nat);
        lemma_contains_middle(Seq::<char>::empty(), pre, "\n\n"@ + table_ddl(ts[n - 1]));
        assert(Seq::<char>::empty() + pre + ("\n\n"@ + table_ddl(ts[n - 1])) =~= tables_ddl(ts, n));
        lemma_contains_trans(tables_ddl(ts, n), pre, table_ddl(ts[k]));
    }
}

/// The lines of the first `n` columns hold the line of each of them.
proof fn lemma_column_lines_hold(cols: Seq<ColumnSchema>, n: nat, pk: nat, j: int)
    requires
        0 <= j < n <= cols.len(),
    ensures
        contains_seq(column_lines(cols, n, pk), column_line(cols[j], j as nat, cols.len(), pk)),
    decreases n,
{
    let line = column_line(cols[n - 1], (n - 1) as nat, cols.len(), pk);
    let pre = column_lines(cols, (n - 1) as nat, pk);
    if j == n - 1 {
        lemma_contains_middle(pre, line, Seq::<char>::empty());
        assert(pre + line + Seq::<char>::empty() =~= column_lines(cols, n, pk));
    } else {
        lemma_column_lines_hold(cols, (n - 1) as nat, pk, j);
        lemma_contains_middle(Seq::<char>::empty(), pre, line);
        assert(Seq::<char>::empty() + pre + line =~= column_lines(cols, n, pk));
        lemma_contains_trans(column_lines(cols, n, pk), pre, column_line(cols[j], j as nat, cols.len(), pk));
    }
}

/// In the DDL of a schema, every table with two or more primary-key columns
/// has the line `  PRIMARY KEY (a, b, ...)` naming exactly those columns, in
/// column order; and in a table with a single primary-key column, that
/// column's line marks it `PRIMARY KEY`.
pub proof fn law_ddl_primary_keys(s: DatabaseSchema, k: int)
    requires
        0 <= k < s.tables@.len(),
    ensures
        key_names(s.tables@[k]).len() >= 2 ==> contains_seq(
            tables_ddl(s.tables@, s.tables@.len()),
            "  PRIMARY KEY ("@ + comma_join(key_names(s.tables@[k]), key_names(s.tables@[k]).len()) + ")"@,
        ),
        key_names(s.tables@[k]).len() == 1 ==> forall|j: int|
            0 <= j < s.tables@[k].columns@.len() && (#[trigger] s.tables@[k].columns@[j]).primary_key
                ==> contains_seq(
                tables_ddl(s.tables@, s.tables@.len()),
                inline_key_text(s.tables@[k].columns@[j]),
            ),
{
    let ts = s.tables@;
    let t = ts[k];
    let cols = t.columns@;
    let ddl = tables_ddl(ts, ts.len());
    lemma_tables_hold(ts, ts.len(), k);
    lemma_pk_names_filter(cols, cols.len());
    assert(cols.take(cols.len() as int) =~= cols);
    let pks = pk_names(cols, cols.len());
    assert(pks == key_names(t));
    let head = (match t.description {
        Some(d) => "-- "@ + d@ + "\n"@,
        None => Seq::<char>::empty(),
    }) + "CREATE TABLE "@ + t.name@ + " (\n"@ + column_lines(cols, cols.len(), pks.len());
    if pks.len() >= 2 {
        let line = "  PRIMARY KEY ("@ + comma_join(pks, pks.len()) + ")"@;
        reveal_strlit(")\n");
        reveal_strlit(")");
        reveal_strlit("\n");
        assert(")\n"@ =~= ")"@ + "\n"@);
        assert(table_ddl(t) =~= head + line + ("\n"@ + ");"@));
        lemma_contains_middle(head, line, "\n"@ + ");"@);
        lemma_contains_trans(ddl, table_ddl(t), line);
    }
    if pks.len() == 1 {
        assert forall|j: int| 0 <= j < cols.len() && (#[trigger] cols[j]).primary_key implies contains_seq(
            ddl,
            inline_key_text(cols[j]),
        ) by {
            let c = cols[j];
            let line = column_line(c, j as nat, cols.len(), 1);
            let rest = (if j + 1 < cols.len() {
                ","@
            } else {
                Seq::<char>::empty()
            }) + "\n"@;
            assert(line =~= inline_key_text(c) + rest);
            lemma_contains_middle(Seq::<char>::empty(), inline_key_text(c), rest);
            assert(Seq::<char>::empty() + inline_key_text(c) + rest =~= line);
            lemma_column_lines_hold(cols, cols.len(), 1, j);
            let pre = (match t.description {
                Some(d) => "-- "@ + d@ + "\n"@,
                None => Seq::<char>::empty(),
            }) + "CREATE TABLE "@ + t.name@ + " (\n"@;
            assert(table_ddl(t) =~= pre + column_lines(cols, cols.len(), 1) + ");"@);
            lemma_contains_middle(pre, column_lines(cols, cols.len(), 1), ");"@);
            lemma_contains_trans(table_ddl(t), column_lines(cols, cols.len(), 1), line);
            lemma_contains_trans(table_ddl(t), line, inline_key_text(c));
            lemma_contains_trans(ddl, table_ddl(t), inline_key_text(c));
        }
    }
}

proof fn lemma_pk_names_len(cols: Seq<ColumnSchema>, n: nat)
    ensures
        pk_names(cols, n).len() <= n,
    decreases n,
{
    if n > 0 {
        lemma_pk_names_len(cols, (n - 1) as nat);
    }
}

/// The names of the primary-key columns.
fn primary_key_names(cols: &Vec<ColumnSchema>) -> (r: Vec<&String>)
    ensures
        r@.map_values(|s: &String| s@) == pk_names(cols@, cols@.len()),
{
    let mut out: Vec<&String> = Vec::new();
    let mut i: usize = 0;
    assert(out@.map_values(|s: &String| s@) =~= pk_names(cols@, 0));
    while i < cols.len()
        invariant
            i <= cols@.len(),
            out@.map_values(|s: &String| s@) == pk_names(cols@, i as nat),
        decreases cols.len() - i,
    {
        if cols[i].primary_key {
            let ghost before = out@.map_values(|s: &String| s@);
            out.push(&cols[i].name);
            assert(out@.map_values(|s: &String| s@) =~= before.push(cols@[i as int].name@));
        }
        i = i + 1;
    }
    out
}

impl DatabaseSchema {
    /// Start a new builder.
    pub fn builder() -> (r: DatabaseSchemaBuilder)
        ensures
            r.pending().tables@ == Seq::<TableSchema>::empty(),
    {
        DatabaseSchemaBuilder::new()
    }

    /// Generate DDL (`CREATE TABLE` statements) for all tables.
    pub fn to_ddl(&self) -> (r: String)
        ensures
            r@ == tables_ddl(self.tables@, self.tables@.len()),
    {
        let mut ddl = String::new();
        let mut i: usize = 0;
        while i < self.tables.len()
            invariant
                i <= self.tables@.len(),
                ddl@ == tables_ddl(self.tables@, i as nat),
            decreases self.tables.len() - i,
        {
            if i > 0 {
                ddl.append("\n\n");
            }
            let ghost sep = ddl@;
            write_table(&mut ddl, &self.tables[i]);
            i = i + 1;
            assert(ddl@ =~= tables_ddl(self.tables@, i as nat));
        }
        ddl
    }
}

/// The line of one column.
fn column_line_text(c: &ColumnSchema, j: usize, ncols: usize, pk: usize) -> (r: String)
    ensures
        r@ == column_line(*c, j as nat, ncols as nat, pk as nat),
{
    let mut line = String::from_str("  ");
    push_string(&mut line, &c.name);
    line.append(" ");
    push_string(&mut line, &c.column_type);
    let ghost a = line@;
    if !c.nullable {
        line.append(" NOT NULL");
    }
    let ghost b = line@;
    if c.primary_key && pk == 1 {
        line.append(" PRIMARY KEY");
    }
    let ghost d = line@;
    if (j < ncols && ncols - j > 1) || pk > 1 {
        line.append(",");
    }
    line.append("\n");
    assert(line@ =~= column_line(*c, j as nat, ncols as nat, pk as nat));
    line
}

/// Appends the statement of one table.
fn write_table(ddl: &mut String, table: &TableSchema)
    ensures
        final(ddl)@ == old(ddl)@ + table_ddl(*table),
{
    let ghost start = ddl@;
    match &table.description {
        Some(desc) => {
            ddl.append("-- ");
            push_string(ddl, desc);
            ddl.append("\n");
        },
        None => {},
    }
    ddl.append("CREATE TABLE ");
    push_string(ddl, &table.name);
    ddl.append(" (\n");
    let pks = primary_key_names(&table.columns);
    let ghost pkv = pk_names(table.columns@, table.columns@.len());
    let ghost head = ddl@;
    let n = table.columns.len();
    let mut j: usize = 0;
    while j < n
        invariant
            n == table.columns@.len(),
            j <= n,
            pks@.len() == pkv.len(),
            ddl@ == head + column_lines(table.columns@, j as nat, pkv.len()),
        decreases n - j,
    {
        let line = column_line_text(&table.columns[j], j, n, pks.len());
        push_string(ddl, &line);
        j = j + 1;
        assert(ddl@ =~= head + column_lines(table.columns@, j as nat, pkv.len()));
    }
    let ghost body = ddl@;
    if pks.len() > 1 {
        ddl.append("  PRIMARY KEY (");
        let ghost open = ddl@;
        let mut k: usize = 0;
        while k < pks.len()
            invariant
                k <= pks@.len(),
                pks@.map_values(|s: &String| s@) == pkv,
                ddl@ == open + comma_join(pkv, k as nat),
            decreases pks.len() - k,
        {
            if k > 0 {
                ddl.append(", ");
            }
            assert(pkv[k as int] == pks@[k as int]@);
            push_string(ddl, pks[k]);
            k = k + 1;
            assert(ddl@ =~= open + comma_join(pkv, k as nat));
        }
        ddl.append(")\n");
    }
    ddl.append(");");
    assert(ddl@ =~= start + table_ddl(*table));
}

// ---------------------------------------------------------------------------
// SQL Query Validator
// ---------------------------------------------------------------------------

/// Validates SQL queries for safety by checking for dangerous operations.
#[derive(Debug, Clone)]
pub struct SQLQueryValidator {
    /// The disallowed SQL operations (uppercased keywords), each once.
    disallowed_operations: Vec<String>,
}

/// The whitespace-separated words of `s[0..i)`, and the open one.
pub open spec fn words_scan(s: Seq<char>, i: nat) -> (Seq<Seq<char>>, Seq<char>)
    decreases i,
{
    if i == 0 {
        (Seq::<Seq<char>>::empty(), Seq::<char>::empty())
    } else {
        let (done, cur) = words_scan(s, (i - 1) as nat);
        if char_is_whitespace(s[i - 1]) {
            if cur.len() > 0 {
                (done.push(cur), Seq::<char>::empty())
            } else {
                (done, cur)
            }
        } else {
            (done, cur.push(s[i - 1]))
        }
    }
}

/// The whitespace-separated words of `s`, as `str::split_whitespace` gives them.
pub open spec fn words(s: Seq<char>) -> Seq<Seq<char>> {
    let (done, cur) = words_scan(s, s.len());
    if cur.len() > 0 {
        done.push(cur)
    } else {
        done
    }
}

/// The number of leading characters of `t` that are not alphanumeric.
pub open spec fn lead_junk(t: Seq<char>, n: nat) -> nat
    decreases t.len() - n,
    when n <= t.len()
{
    if n == t.len() || char_is_alphanumeric(t[n as int]) {
        n
    } else {
        lead_junk(t, n + 1)
    }
}

/// The end of `t` once trailing non-alphanumeric characters after `lo` are dropped.
pub open spec fn trail_end(t: Seq<char>, lo: nat, n: nat) -> nat
    decreases n,
{
    if n <= lo || char_is_alphanumeric(t[n - 1]) {
        n
    } else {
        trail_end(t, lo, (n - 1) as nat)
    }
}

/// `t` without its leading and trailing non-alphanumeric characters, as
/// `str::trim_matches` leaves it.
pub open spec fn clean_word(t: Seq<char>) -> Seq<char> {
    let lo = lead_junk(t, 0);
    t.subrange(lo as int, trail_end(t, lo, t.len()) as int)
}

/// The first of `ws[0..n)` whose cleaned form is in `ops`, cleaned.
pub open spec fn first_disallowed(ws: Seq<Seq<char>>, ops: Set<Seq<char>>, n: nat) -> Option<Seq<char>>
    decreases n,
{
    if n == 0 || n > ws.len() {
        None
    } else {
        match first_disallowed(ws, ops, (n - 1) as nat) {
            Some(x) => Some(x),
            None => if ops.contains(clean_word(ws[n - 1])) {
                Some(clean_word(ws[n - 1]))
            } else {
                None
            },
        }
    }
}

/// The set of texts held in `v`.
pub open spec fn op_set(v: Seq<String>) -> Set<Seq<char>> {
    Set::new(|t: Seq<char>| exists|i: int| 0 <= i < v.len() && (#[trigger] v[i])@ == t)
}

/// The operations a new validator refuses.
pub open spec fn default_disallowed() -> Set<Seq<char>> {
    set!["DROP"@, "DELETE"@, "ALTER"@, "TRUNCATE"@, "INSERT"@, "UPDATE"@]
}

proof fn lemma_lead_junk_bound(t: Seq<char>, n: nat)
    requires
        n <= t.len(),
    ensures
        n <= lead_junk(t, n) <= t.len(),
    decreases t.len() - n,
{
    if n < t.len() && !char_is_alphanumeric(t[n as int]) {
        lemma_lead_junk_bound(t, n + 1);
    }
}

proof fn lemma_trail_end_bound(t: Seq<char>, lo: nat, n: nat)
    requires
        lo <= n <= t.len(),
    ensures
        lo <= trail_end(t, lo, n) <= n,
    decreases n,
{
    if n > lo && !char_is_alphanumeric(t[n - 1]) {
        lemma_trail_end_bound(t, lo, (n - 1) as nat);
    }
}

/// A word without its leading and trailing non-alphanumeric characters.
fn clean(w: &Vec<char>) -> (r: String)
    ensures
        r@ == clean_word(w@),
{
    let n = w.len();
    let mut lo: usize = 0;
    proof {
        lemma_lead_junk_bound(w@, 0);
    }
    while lo < n && !is_alphanumeric(w[lo])
        invariant
            n == w@.len(),
            lo <= n,
            lead_junk(w@, 0) == lead_junk(w@, lo as nat),
        decreases n - lo,
    {
        lo = lo + 1;
    }
    let mut hi: usize = n;
    proof {
        lemma_trail_end_bound(w@, lo as nat, n as nat);
    }
    while hi > lo && !is_alphanumeric(w[hi - 1])
        invariant
            n == w@.len(),
            lo <= hi <= n,
            lo == lead_junk(w@, 0),
            trail_end(w@, lo as nat, n as nat) == trail_end(w@, lo as nat, hi as nat),
        decreases hi,
    {
        hi = hi - 1;
    }
    let mut out = String::new();
    let mut k: usize = lo;
    while k < hi
        invariant
            lo <= k <= hi <= n,
            n == w@.len(),
            out@ == w@.subrange(lo as int, k as int),
        decreases hi - k,
    {
        push_char(&mut out, w[k]);
        k = k + 1;
        assert(out@ =~= w@.subrange(lo as int, k as int));
    }
    out
}

/// Whether `s` is among `v`.
fn in_ops(v: &Vec<String>, s: &str) -> (r: bool)
    ensures
        r == op_set(v@).contains(s@),
{
    let mut i: usize = 0;
    while i < v.len()
        invariant
            i <= v@.len(),
            forall|k: int| 0 <= k < i ==> (#[trigger] v@[k])@ != s@,
        decreases v.len() - i,
    {
        if str_eq(v[i].as_str(), s) {
            assert(op_set(v@).contains(s@));
            return true;
        }
        i = i + 1;
    }
    false
}

/// The words of a text, as `str::split_whitespace` gives them.
fn split_words(s: &str) -> (r: Vec<Vec<char>>)
    ensures
        r@.map_values(|w: Vec<char>| w@) == words(s@),
{
    let cs = chars_of(s);
    let mut done: Vec<Vec<char>> = Vec::new();
    let mut cur: Vec<char> = Vec::new();
    let mut i: usize = 0;
    assert(done@.map_values(|w: Vec<char>| w@) =~= Seq::<Seq<char>>::empty());
    while i < cs.len()
        invariant
            cs@ == s@,
            i <= cs@.len(),
            (done@.map_values(|w: Vec<char>| w@), cur@) == words_scan(cs@, i as nat),
        decreases cs.len() - i,
    {
        if is_whitespace(cs[i]) {
            if cur.len() > 0 {
                let ghost before = done@.map_values(|w: Vec<char>| w@);
                let w = cur;
                cur = Vec::new();
                let ghost wv = w@;
                done.push(w);
                assert(done@.map_values(|w: Vec<char>| w@) =~= before.push(wv));
            }
        } else {
            cur.push(cs[i]);
        }
        i = i + 1;
    }
    if cur.len() > 0 {
        let ghost before = done@.map_values(|w: Vec<char>| w@);
        let ghost wv = cur@;
        done.push(cur);
        assert(done@.map_values(|w: Vec<char>| w@) =~= before.push(wv));
    }
    done
}

/// Adds `s` to `v` unless it is already there.
fn add_op(v: &mut Vec<String>, s: String)
    requires
        distinct_ops(old(v)@),
    ensures
        distinct_ops(final(v)@),
        op_set(final(v)@) == op_set(old(v)@).insert(s@),
{
    let ghost before = v@;
    if !in_ops(v, s.as_str()) {
        let ghost sv = s@;
        v.push(s);
        assert(op_set(v@) =~= op_set(before).insert(sv)) by {
            assert forall|t: Seq<char>| op_set(before).insert(sv).contains(t) implies op_set(v@).contains(t) by {
                if t == sv {
                    assert(v@[before.len() as int]@ == t);
                } else {
                    let k = choose|k: int| 0 <= k < before.len() && (#[trigger] before[k])@ == t;
                    assert(v@[k] == before[k]);
                }
            }
            assert forall|t: Seq<char>| op_set(v@).contains(t) implies op_set(before).insert(sv).contains(t) by {
                let k = choose|k: int| 0 <= k < v@.len() && (#[trigger] v@[k])@ == t;
                if k < before.len() {
                    assert(v@[k] == before[k]);
                    assert(op_set(before).contains(t));
                }
            }
        }
    } else {
        assert(op_set(v@) =~= op_set(before).insert(s@));
    }
}

/// Whether no text occurs twice in `v`.
pub open spec fn distinct_ops(v: Seq<String>) -> bool {
    forall|i: int, j: int| 0 <= i < j < v.len() ==> (#[trigger] v[i])@ != (#[trigger] v[j])@
}

impl SQLQueryValidator {
    /// The refused operations.
    pub closed spec fn ops(&self) -> Set<Seq<char>> {
        op_set(self.disallowed_operations@)
    }

    /// Create a validator with the default disallowed operations:
    /// `DROP`, `DELETE`, `ALTER`, `TRUNCATE`, `INSERT`, `UPDATE`.
    pub fn new() -> (r: Self)
        ensures
            r.ops() == default_disallowed(),
    {
        let mut v: Vec<String> = Vec::new();
        assert(op_set(v@) =~= Set::<Seq<char>>::empty());
        add_op(&mut v, String::from_str("DROP"));
        add_op(&mut v, String::from_str("DELETE"));
        add_op(&mut v, String::from_str("ALTER"));
        add_op(&mut v, String::from_str("TRUNCATE"));
        add_op(&mut v, String::from_str("INSERT"));
        add_op(&mut v, String::from_str("UPDATE"));
        let r = SQLQueryValidator { disallowed_operations: v };
        assert(r.ops() =~= default_disallowed());
        r
    }

    /// Create a validator with a custom set of disallowed operations, each
    /// upper-cased.
    pub fn with_disallowed(operations: &[&str]) -> (r: Self)
        ensures
            r.ops() == Set::new(|t: Seq<char>| exists|i: int| 0 <= i < operations@.len()
                && uppercase_of((#[trigger] operations@[i])@) == t),
    {
        let mut v: Vec<String> = Vec::new();
        let ghost target = Set::new(|t: Seq<char>| exists|i: int| 0 <= i < operations@.len()
            && uppercase_of((#[trigger] operations@[i])@) == t);
        assert(op_set(v@) =~= Set::<Seq<char>>::empty());
        let mut i: usize = 0;
        while i < operations.len()
            invariant
                i <= operations@.len(),
                distinct_ops(v@),
                op_set(v@) == Set::new(|t: Seq<char>| exists|k: int| 0 <= k < i
                    && uppercase_of((#[trigger] operations@[k])@) == t),
            decreases operations.len() - i,
        {
            let ghost before = op_set(v@);
            let up = to_uppercase(operations[i]);
            let ghost uv = up@;
            add_op(&mut v, up);
            assert(op_set(v@) =~= Set::new(|t: Seq<char>| exists|k: int| 0 <= k < i + 1
                && uppercase_of((#[trigger] operations@[k])@) == t)) by {
                assert forall|t: Seq<char>| op_set(v@).contains(t) implies exists|k: int| 0 <= k < i + 1
                    && uppercase_of((#[trigger] operations@[k])@) == t by {
                    if t != uv {
                        assert(before.contains(t));
                    }
                }
            }
            i = i + 1;
        }
        let r = SQLQueryValidator { disallowed_operations: v };
        assert(r.ops() =~= target);
        r
    }

    /// Create a validator that allows everything (no restrictions).
    pub fn permissive() -> (r: Self)
        ensures
            r.ops() == Set::<Seq<char>>::empty(),
    {
        let r = SQLQueryValidator { disallowed_operations: Vec::new() };
        assert(r.ops() =~= Set::<Seq<char>>::empty());
        r
    }

    /// Validate the given SQL query string.
    ///
    /// The query is upper-cased and split into words; each word, without its
    /// leading and trailing punctuation, must not be a disallowed operation.
    /// The first one that is gives the error.
    pub fn validate(&self, sql: &str) -> (r: Result<(), RustChainError>)
        ensures
            match first_disallowed(words(uppercase_of(sql@)), self.ops(), words(uppercase_of(sql@)).len()) {
                Some(op) => r matches Err(RustChainError::Other(m))
                    && m@ == "SQL validation error: disallowed operation '"@ + op + "' found in query"@,
                None => r is Ok,
            },
    {
        let upper = to_uppercase(sql);
        let ws = split_words(upper.as_str());
        let ghost wv = ws@.map_values(|w: Vec<char>| w@);
        let mut i: usize = 0;
        while i < ws.len()
            invariant
                i <= ws@.len(),
                wv == ws@.map_values(|w: Vec<char>| w@),
                wv == words(uppercase_of(sql@)),
                first_disallowed(wv, self.ops(), i as nat) is None,
            decreases ws.len() - i,
        {
            let c = clean(&ws[i]);
            assert(wv[i as int] == ws@[i as int]@);
            if in_ops(&self.disallowed_operations, c.as_str()) {
                let mut msg = String::from_str("SQL validation error: disallowed operation '");
                push_string(&mut msg, &c);
                msg.append("' found in query");
                proof {
                    lemma_first_disallowed_stays(wv, self.ops(), (i + 1) as nat, wv.len());
                }
                return Err(RustChainError::Other(msg));
            }
            i = i + 1;
        }
        Ok(())
    }
}

proof fn lemma_first_disallowed_stays(ws: Seq<Seq<char>>, ops: Set<Seq<char>>, n: nat, m: nat)
    requires
        n <= m <= ws.len(),
        first_disallowed(ws, ops, n) is Some,
    ensures
        first_disallowed(ws, ops, m) == first_disallowed(ws, ops, n),
    decreases m - n,
{
    if m > n {
        lemma_first_disallowed_stays(ws, ops, n, (m - 1) as nat);
    }
}

impl Default for SQLQueryValidator {
    fn default() -> (r: Self)
        ensures
            r.ops() == default_disallowed(),
    {
        Self::new()
    }
}

// ---------------------------------------------------------------------------
// Reading DDL
// ---------------------------------------------------------------------------

/// The pattern of a `CREATE TABLE name ( body );` statement.
pub open spec fn create_table_pattern() -> Seq<char> {
    "(?is)CREATE\\s+TABLE\\s+(\\w+)\\s*\\(\\s*(.*?)\\s*\\)\\s*;"@
}

/// The text of group `i` of a match, empty when the group took no part.
pub open spec fn group_text(m: Seq<Option<Seq<char>>>, i: int) -> Seq<char> {
    if 0 <= i < m.len() && m[i] is Some {
        m[i]->0
    } else {
        Seq::empty()
    }
}

/// The pieces of `s[0..i)` between commas, and the open one.
pub open spec fn comma_scan(s: Seq<char>, i: nat) -> (Seq<Seq<char>>, Seq<char>)
    decreases i,
{
    if i == 0 || i > s.len() {
        (Seq::empty(), Seq::empty())
    } else {
        let (done, cur) = comma_scan(s, (i - 1) as nat);
        if s[i - 1] == ',' {
            (done.push(cur), Seq::empty())
        } else {
            (done, cur.push(s[i - 1]))
        }
    }
}

/// The pieces of `s` between commas, as `str::split(',')` gives them.
pub open spec fn comma_pieces(s: Seq<char>) -> Seq<Seq<char>> {
    let (done, cur) = comma_scan(s, s.len());
    done.push(cur)
}

/// Whether `s` starts with `p`.
pub open spec fn has_prefix(s: Seq<char>, p: Seq<char>) -> bool {
    p.len() <= s.len() && s.subrange(0, p.len() as int) == p
}

/// Whether an uppercased body line is a table constraint rather than a
/// column.
pub open spec fn is_constraint(up: Seq<char>) -> bool {
    has_prefix(up, "PRIMARY KEY"@) || has_prefix(up, "FOREIGN KEY"@) || has_prefix(up, "UNIQUE"@)
        || has_prefix(up, "CHECK"@) || has_prefix(up, "CONSTRAINT"@)
}

/// The column a line of a table body declares, if any: its name, type, and
/// whether it is nullable and a primary key.
pub open spec fn ddl_column(line: Seq<char>) -> Option<(Seq<char>, Seq<char>, bool, bool)> {
    let t = trim_ws(line);
    let up = uppercase_of(t);
    let w = words(t);
    if t.len() == 0 || is_constraint(up) || w.len() < 2 {
        None
    } else {
        Some((w[0], w[1], !contains_seq(up, "NOT NULL"@), contains_seq(up, "PRIMARY KEY"@)))
    }
}

/// The columns declared by `lines[0..n)`.
pub open spec fn ddl_columns(lines: Seq<Seq<char>>, n: nat) -> Seq<(Seq<char>, Seq<char>, bool, bool)>
    decreases n,
{
    if n == 0 || n > lines.len() {
        Seq::empty()
    } else {
        match ddl_column(lines[n - 1]) {
            Some(c) => ddl_columns(lines, (n - 1) as nat).push(c),
            None => ddl_columns(lines, (n - 1) as nat),
        }
    }
}

/// Whether `c` is the column described by `d`.
pub open spec fn column_is(c: ColumnSchema, d: (Seq<char>, Seq<char>, bool, bool)) -> bool {
    c.name@ == d.0 && c.column_type@ == d.1 && c.nullable == d.2 && c.primary_key == d.3
}

/// Whether `t` is the table named `name` whose body is `body`.
pub open spec fn table_is(t: TableSchema, name: Seq<char>, body: Seq<char>) -> bool {
    let cols = ddl_columns(comma_pieces(body), comma_pieces(body).len());
    &&& t.name@ == name
    &&& t.description is None
    &&& t.columns@.len() == cols.len()
    &&& forall|i: int| 0 <= i < cols.len() ==> column_is(#[trigger] t.columns@[i], cols[i])
}

/// The schema the matches of `CREATE TABLE` statements describe: one table
/// per match, named by its first group, its columns read from its second;
/// an error when there is no match.
pub open spec fn schema_from_matches(caps: Seq<Seq<Option<Seq<char>>>>, r: Result<DatabaseSchema, RustChainError>) -> bool {
    if caps.len() == 0 {
        r matches Err(RustChainError::Other(m)) && m@ == "No CREATE TABLE statements found in DDL"@
    } else {
        r matches Ok(s) && s.tables@.len() == caps.len() && forall|i: int|
            0 <= i < caps.len() ==> table_is(#[trigger] s.tables@[i], group_text(caps[i], 1), group_text(caps[i], 2))
    }
}

/// Splits `s` at its commas.
fn split_commas(s: &str) -> (r: Vec<String>)
    ensures
        r@.map_values(|x: String| x@) == comma_pieces(s@),
{
    let cs = chars_of(s);
    let mut done: Vec<String> = Vec::new();
    let mut cur = String::new();
    let mut i: usize = 0;
    assert(done@.map_values(|x: String| x@) =~= Seq::<Seq<char>>::empty());
    while i < cs.len()
        invariant
            cs@ == s@,
            i <= cs@.len(),
            (done@.map_values(|x: String| x@), cur@) == comma_scan(cs@, i as nat),
        decreases cs.len() - i,
    {
        if cs[i] == ',' {
            let ghost before = done@.map_values(|x: String| x@);
            let piece = cur;
            cur = String::new();
            let ghost pv = piece@;
            done.push(piece);
            assert(done@.map_values(|x: String| x@) =~= before.push(pv));
        } else {
            push_char(&mut cur, cs[i]);
        }
        i = i + 1;
    }
    let ghost before = done@.map_values(|x: String| x@);
    let ghost cv = cur@;
    done.push(cur);
    assert(done@.map_values(|x: String| x@) =~= before.push(cv));
    done
}

/// The column a body line declares, if any.
fn column_of_line(line: &str) -> (r: Option<ColumnSchema>)
    ensures
        match ddl_column(line@) {
            Some(d) => r matches Some(c) && column_is(c, d),
            None => r is None,
        },
{
    let t = trim_text(line);
    if t.as_str().unicode_len() == 0 {
        return None;
    }
    let up = to_uppercase(t.as_str());
    let u = up.as_str();
    if starts_with(u, "PRIMARY KEY") || starts_with(u, "FOREIGN KEY") || starts_with(u, "UNIQUE")
        || starts_with(u, "CHECK") || starts_with(u, "CONSTRAINT") {
        return None;
    }
    let w = split_words(t.as_str());
    if w.len() < 2 {
        return None;
    }
    proof {
        assert(w@[0]@ == words(t@)[0]);
        assert(w@[1]@ == words(t@)[1]);
    }
    Some(ColumnSchema {
        name: string_of_chars(&w[0]),
        column_type: string_of_chars(&w[1]),
        nullable: !contains_str(u, "NOT NULL"),
        primary_key: contains_str(u, "PRIMARY KEY"),
    })
}

/// The text of group `i` of a match, empty when it took no part.
pub(crate) fn group_of(m: &Vec<Option<String>>, i: usize) -> (r: String)
    ensures
        r@ == group_text(m@.map_values(|g: Option<String>| crate::text::opt_text(g)), i as int),
{
    if i < m.len() {
        match &m[i] {
            Some(g) => g.clone(),
            None => String::new(),
        }
    } else {
        String::new()
    }
}

impl DatabaseSchema {
    /// The schema described by the matches of `CREATE TABLE` statements
    /// (group 1 the table name, group 2 its body): one table per match with
    /// the columns its body declares, skipping blank lines, table
    /// constraints and lines of fewer than two words.
    pub fn from_captures(caps: &Vec<Vec<Option<String>>>) -> (r: Result<DatabaseSchema, RustChainError>)
        ensures
            schema_from_matches(captures_view(caps@), r),
    {
        if caps.len() == 0 {
            return Err(RustChainError::Other(String::from_str("No CREATE TABLE statements found in DDL")));
        }
        let ghost cv = captures_view(caps@);
        let mut tables: Vec<TableSchema> = Vec::new();
        let mut i: usize = 0;
        while i < caps.len()
            invariant
                i <= caps@.len(),
                cv == captures_view(caps@),
                tables@.len() == i,
                forall|k: int| 0 <= k < i ==> table_is(#[trigger] tables@[k], group_text(cv[k], 1), group_text(cv[k], 2)),
            decreases caps.len() - i,
        {
            let name = group_of(&caps[i], 1);
            let body = group_of(&caps[i], 2);
            let lines = split_commas(body.as_str());
            let ghost lv = lines@.map_values(|x: String| x@);
            let mut columns: Vec<ColumnSchema> = Vec::new();
            let mut j: usize = 0;
            while j < lines.len()
                invariant
                    j <= lines@.len(),
                    lv == lines@.map_values(|x: String| x@),
                    columns@.len() == ddl_columns(lv, j as nat).len(),
                    forall|k: int| 0 <= k < columns@.len() ==> column_is(#[trigger] columns@[k], ddl_columns(lv, j as nat)[k]),
                decreases lines.len() - j,
            {
                match column_of_line(lines[j].as_str()) {
                    Some(c) => {
                        columns.push(c);
                    },
                    None => {},
                }
                j = j + 1;
            }
            let table = TableSchema { name, columns, description: None };
            tables.push(table);
            i = i + 1;
        }
        Ok(DatabaseSchema { tables })
    }

    /// Reads the tables of `CREATE TABLE name (...);` statements in `ddl`.
    pub fn from_ddl(ddl: &str) -> (r: Result<DatabaseSchema, RustChainError>)
        ensures
            match regex_captures(create_table_pattern(), ddl@) {
                Ok(caps) => schema_from_matches(caps, r),
                Err(m) => r matches Err(RustChainError::Other(e)) && e@ == m,
            },
    {
        let pattern = "(?is)CREATE\\s+TABLE\\s+(\\w+)\\s*\\(\\s*(.*?)\\s*\\)\\s*;";
        proof {
            reveal_strlit("(?is)CREATE\\s+TABLE\\s+(\\w+)\\s*\\(\\s*(.*?)\\s*\\)\\s*;");
        }
        match captures_all(pattern, ddl) {
            Ok(caps) => Self::from_captures(&caps),
            Err(e) => Err(RustChainError::Other(e)),
        }
    }
}

// ---------------------------------------------------------------------------
// Text-to-SQL chain
// ---------------------------------------------------------------------------

/// The pattern of a fenced code block, optionally marked `sql`.
pub open spec fn sql_block_pattern() -> Seq<char> {
    "(?is)```(?:sql)?\\s*\\n?(.*?)\\n?\\s*```"@
}

/// The SQL in a trimmed model reply, given the code blocks found in it:
/// the trimmed body of the first block, else the reply itself.
pub open spec fn sql_from(trimmed: Seq<char>, caps: Result<Seq<Seq<Option<Seq<char>>>>, Seq<char>>) -> Seq<char> {
    match caps {
        Ok(c) => if c.len() > 0 {
            trim_ws(group_text(c[0], 1))
        } else {
            trimmed
        },
        Err(_) => trimmed,
    }
}

/// The default prompt: the schema, then the question, asking for SQL only.
pub open spec fn default_sql_prompt() -> Seq<char> {
    "Given the following database schema:\n\n{schema}\n\nGenerate a SQL query that answers the following question:\n{question}\n\nReturn ONLY the SQL query, without any explanation or markdown formatting."@
}

/// The settings of a chain that turns questions into SQL: the schema, the
/// prompt, and whether the generated SQL is checked. The model that writes
/// the SQL is held by the caller.
pub struct TextToSQLChain {
    /// The database schema.
    pub schema: DatabaseSchema,
    /// The prompt, with `{schema}` and `{question}` placeholders.
    pub prompt_template: String,
    /// Whether generated SQL is checked.
    pub validate_sql: bool,
    /// Whether the prompt shows the schema's DDL.
    pub include_schema_in_prompt: bool,
    /// The check applied to generated SQL.
    pub validator: SQLQueryValidator,
}

/// Builds a [`TextToSQLChain`].
pub struct TextToSQLChainBuilder {
    /// The schema, once given.
    pub schema: Option<DatabaseSchema>,
    /// The prompt.
    pub prompt_template: String,
    /// Whether generated SQL is checked.
    pub validate_sql: bool,
    /// Whether the prompt shows the schema.
    pub include_schema_in_prompt: bool,
    /// The check applied to generated SQL.
    pub validator: SQLQueryValidator,
}

impl TextToSQLChainBuilder {
    /// A builder with the default prompt, checking on with the default
    /// validator, and the schema shown.
    pub fn new() -> (r: Self)
        ensures
            r.schema is None,
            r.prompt_template@ == default_sql_prompt(),
            r.validate_sql,
            r.include_schema_in_prompt,
            r.validator.ops() == default_disallowed(),
    {
        TextToSQLChainBuilder {
            schema: None,
            prompt_template: String::from_str(
                "Given the following database schema:\n\n{schema}\n\nGenerate a SQL query that answers the following question:\n{question}\n\nReturn ONLY the SQL query, without any explanation or markdown formatting.",
            ),
            validate_sql: true,
            include_schema_in_prompt: true,
            validator: SQLQueryValidator::new(),
        }
    }

    /// Sets the schema.
    pub fn schema(self, schema: DatabaseSchema) -> (r: Self)
        ensures
            r.schema == Some(schema),
            r.prompt_template == self.prompt_template,
            r.validate_sql == self.validate_sql,
            r.include_schema_in_prompt == self.include_schema_in_prompt,
            r.validator == self.validator,
    {
        TextToSQLChainBuilder { schema: Some(schema), ..self }
    }

    /// Sets the prompt.
    pub fn prompt_template(self, template: &str) -> (r: Self)
        ensures
            r.prompt_template@ == template@,
            r.schema == self.schema,
            r.validate_sql == self.validate_sql,
            r.include_schema_in_prompt == self.include_schema_in_prompt,
            r.validator == self.validator,
    {
        TextToSQLChainBuilder { prompt_template: String::from_str(template), ..self }
    }

    /// Turns checking of generated SQL on or off.
    pub fn validate_sql(self, validate: bool) -> (r: Self)
        ensures
            r.validate_sql == validate,
            r.schema == self.schema,
            r.prompt_template == self.prompt_template,
            r.include_schema_in_prompt == self.include_schema_in_prompt,
            r.validator == self.validator,
    {
        TextToSQLChainBuilder { validate_sql: validate, ..self }
    }

    /// Shows or hides the schema in the prompt.
    pub fn include_schema_in_prompt(self, shown: bool) -> (r: Self)
        ensures
            r.include_schema_in_prompt == shown,
            r.schema == self.schema,
            r.prompt_template == self.prompt_template,
            r.validate_sql == self.validate_sql,
            r.validator == self.validator,
    {
        TextToSQLChainBuilder { include_schema_in_prompt: shown, ..self }
    }

    /// Sets the check applied to generated SQL.
    pub fn validator(self, validator: SQLQueryValidator) -> (r: Self)
        ensures
            r.validator == validator,
            r.schema == self.schema,
            r.prompt_template == self.prompt_template,
            r.validate_sql == self.validate_sql,
            r.include_schema_in_prompt == self.include_schema_in_prompt,
    {
        TextToSQLChainBuilder { validator, ..self }
    }

    /// The chain; the schema must have been given.
    pub fn build(self) -> (r: TextToSQLChain)
        requires
            self.schema is Some,
        ensures
            Some(r.schema) == self.schema,
            r.prompt_template == self.prompt_template,
            r.validate_sql == self.validate_sql,
            r.include_schema_in_prompt == self.include_schema_in_prompt,
            r.validator == self.validator,
    {
        let schema = match self.schema {
            Some(s) => s,
            None => DatabaseSchema { tables: Vec::new() },
        };
        TextToSQLChain {
            schema,
            prompt_template: self.prompt_template,
            validate_sql: self.validate_sql,
            include_schema_in_prompt: self.include_schema_in_prompt,
            validator: self.validator,
        }
    }
}

impl TextToSQLChain {
    /// A builder with the default settings.
    pub fn builder() -> (r: TextToSQLChainBuilder)
        ensures
            r.schema is None,
            r.prompt_template@ == default_sql_prompt(),
            r.validate_sql,
            r.include_schema_in_prompt,
            r.validator.ops() == default_disallowed(),
    {
        TextToSQLChainBuilder::new()
    }

    /// The prompt for `input`: the template with `{schema}` taking the
    /// schema's DDL when it is shown (else nothing) and the other
    /// placeholders taken from `input`.
    pub fn format_prompt(&self, input: &JsonValue) -> (r: Result<String, RustChainError>)
        ensures
            template_filled(
                self.prompt_template@,
                "input"@,
                "schema"@,
                if self.include_schema_in_prompt {
                    tables_ddl(self.schema.tables@, self.schema.tables@.len())
                } else {
                    Seq::empty()
                },
                *input,
                r,
            ),
    {
        let ddl = if self.include_schema_in_prompt {
            self.schema.to_ddl()
        } else {
            String::new()
        };
        fill_template(self.prompt_template.as_str(), "input", "schema", ddl.as_str(), input)
    }

    /// The SQL in a trimmed reply, given the code blocks found in it.
    pub fn sql_from_captures(trimmed: &str, caps: &Result<Vec<Vec<Option<String>>>, String>) -> (r: String)
        ensures
            r@ == sql_from(
                trimmed@,
                match caps {
                    Ok(c) => Ok(captures_view(c@)),
                    Err(e) => Err(e@),
                },
            ),
    {
        match caps {
            Ok(c) => {
                if c.len() > 0 {
                    let g = group_of(&c[0], 1);
                    trim_text(g.as_str())
                } else {
                    String::from_str(trimmed)
                }
            },
            Err(_) => String::from_str(trimmed),
        }
    }

    /// The SQL in a model reply: the body of its first fenced code block,
    /// else the whole reply, trimmed.
    pub fn extract_sql(response: &str) -> (r: String)
        ensures
            r@ == sql_from(trim_ws(response@), regex_captures(sql_block_pattern(), trim_ws(response@))),
    {
        let trimmed = trim_text(response);
        let caps = captures_all("(?is)```(?:sql)?\\s*\\n?(.*?)\\n?\\s*```", trimmed.as_str());
        Self::sql_from_captures(trimmed.as_str(), &caps)
    }

    /// Checks generated SQL when checking is on.
    pub fn check_sql(&self, sql: &str) -> (r: Result<(), RustChainError>)
        ensures
            !self.validate_sql ==> r is Ok,
            self.validate_sql ==> match first_disallowed(
                words(uppercase_of(sql@)),
                self.validator.ops(),
                words(uppercase_of(sql@)).len(),
            ) {
                Some(op) => r matches Err(RustChainError::Other(m))
                    && m@ == "SQL validation error: disallowed operation '"@ + op + "' found in query"@,
                None => r is Ok,
            },
    {
        if self.validate_sql {
            self.validator.validate(sql)
        } else {
            Ok(())
        }
    }
}

} // verus!
