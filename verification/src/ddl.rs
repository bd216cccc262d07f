//! DDL tool requests: their parameters, confirmation checks, and the SQL each
//! table alteration becomes.
use vstd::prelude::*;
use crate::json::{JNum, JValue, JsonNumber, JsonValue, member_get, object_get, view_items, view_members};
use crate::text::{cat, cat3, join, spec_join, str_eq, views};

verus! {

/// How a database spells identifiers and literal values in SQL.
pub trait SqlDialect {
    /// The quoted form of an identifier.
    spec fn spec_quote(&self, name: Seq<char>) -> Seq<char>;

    /// The SQL literal for a JSON value.
    spec fn spec_literal(&self, value: JValue) -> Seq<char>;

    fn quote_identifier(&self, name: &str) -> (r: String)
        ensures
            r@ == self.spec_quote(name@);

    fn json_to_sql_literal(&self, value: &JsonValue) -> (r: String)
        ensures
            r@ == self.spec_literal(value@);
}

/// Doubles every occurrence of `q`.
pub open spec fn double_quote_char(s: Seq<char>, q: char) -> Seq<char>
    decreases s.len(),
{
    if s.len() == 0 {
        s
    } else if s[0] == q {
        seq![q, q] + double_quote_char(s.drop_first(), q)
    } else {
        seq![s[0]] + double_quote_char(s.drop_first(), q)
    }
}

pub(crate) fn escape_text(s: &str, q: char) -> (r: String)
    ensures
        r@ == double_quote_char(s@, q),
{
    let chars = crate::text::chars_of(s);
    let mut out: Vec<char> = Vec::new();
    let mut i = chars.len();
    let ghost whole = s@;
    let mut tail: Vec<char> = Vec::new();
    while i > 0
        invariant
            i <= chars.len(),
            chars@ == whole,
            tail@ == double_quote_char(whole.subrange(i as int, whole.len() as int), q),
        decreases i,
    {
        let c = chars[i - 1];
        let ghost rest = whole.subrange(i as int, whole.len() as int);
        let ghost cur = whole.subrange(i - 1, whole.len() as int);
        assert(cur.drop_first() =~= rest);
        assert(cur[0] == c);
        let mut next: Vec<char> = Vec::new();
        next.push(c);
        if c == q {
            next.push(q);
        }
        let mut k: usize = 0;
        while k < tail.len()
            invariant
                k <= tail.len(),
                next@ == (if c == q { seq![q, q] } else { seq![c] }) + tail@.subrange(0, k as int),
            decreases tail.len() - k,
        {
            next.push(tail[k]);
            k = k + 1;
            assert(next@ =~= (if c == q { seq![q, q] } else { seq![c] }) + tail@.subrange(0, k as int));
        }
        assert(tail@.subrange(0, tail@.len() as int) =~= tail@);
        tail = next;
        i = i - 1;
    }
    assert(whole.subrange(0, whole.len() as int) =~= whole);
    crate::text::string_from_chars(tail.as_slice())
}

/// The ANSI dialect: identifiers in double quotes; JSON null as `NULL`,
/// booleans as `TRUE`/`FALSE`, numbers as printed, strings in single quotes,
/// arrays and objects as their JSON text in single quotes; quotes inside
/// quoted text are doubled.
#[derive(Debug)]
pub struct DefaultSqlDialect;

/// The ANSI literal for a JSON value.
pub open spec fn ansi_literal(value: JValue) -> Seq<char> {
    match value {
        JValue::Null => "NULL"@,
        JValue::Bool(b) => if b { "TRUE"@ } else { "FALSE"@ },
        JValue::Number(n) => crate::dynamo::attr::number_text(n),
        JValue::Str(s) => "'"@ + double_quote_char(s, '\'') + "'"@,
        _ => "'"@ + double_quote_char(crate::json::spec_json_text(value), '\'') + "'"@,
    }
}

impl SqlDialect for DefaultSqlDialect {
    open spec fn spec_quote(&self, name: Seq<char>) -> Seq<char> {
        "\""@ + double_quote_char(name, '"') + "\""@
    }

    open spec fn spec_literal(&self, value: JValue) -> Seq<char> {
        ansi_literal(value)
    }

    fn quote_identifier(&self, name: &str) -> (r: String) {
        cat3("\"", escape_text(name, '"').as_str(), "\"")
    }

    fn json_to_sql_literal(&self, value: &JsonValue) -> (r: String) {
        match value {
            JsonValue::Null => String::from_str("NULL"),
            JsonValue::Bool(b) => if *b { String::from_str("TRUE") } else { String::from_str("FALSE") },
            JsonValue::Number(n) => crate::dynamo::attr::number_to_text(n),
            JsonValue::Str(s) => cat3("'", escape_text(s.as_str(), '\'').as_str(), "'"),
            _ => {
                let text = crate::json::json_text(value);
                cat3("'", escape_text(text.as_str(), '\'').as_str(), "'")
            },
        }
    }
}

/// One change to a table's structure, as a DDL tool receives it.
#[derive(Debug)]
pub struct AlterOperation {
    pub action: String,
    pub column: Option<String>,
    pub definition: Option<JsonValue>,
}

/// `str::to_uppercase`: the Unicode upper case of a text.
pub uninterp spec fn spec_to_uppercase(s: Seq<char>) -> Seq<char>;

/// `str::to_uppercase`, whose result is named by `spec_to_uppercase`; the
/// Unicode case tables are std's and not restated here.
#[verifier::external_body]
pub(crate) fn to_uppercase(s: &str) -> (r: String)
    ensures
        r@ == spec_to_uppercase(s@),
{
    s.to_uppercase()
}

/// A member of a definition object.
pub open spec fn def_get(def: JValue, key: Seq<char>) -> Option<JValue> {
    match def {
        JValue::Object(m) => member_get(m, key),
        _ => None,
    }
}

/// A string member of a definition object.
pub open spec fn def_str(def: JValue, key: Seq<char>) -> Option<Seq<char>> {
    match def_get(def, key) {
        Some(JValue::Str(s)) => Some(s),
        _ => None,
    }
}

/// A string member, or a fallback.
pub open spec fn def_str_or(def: JValue, key: Seq<char>, fallback: Seq<char>) -> Seq<char> {
    match def_str(def, key) {
        Some(s) => s,
        None => fallback,
    }
}

/// The quoted names of the string items of a list; other items are skipped.
pub open spec fn quoted_names<D: SqlDialect>(d: D, items: Seq<JValue>) -> Seq<Seq<char>>
    decreases items.len(),
{
    if items.len() == 0 {
        Seq::empty()
    } else {
        let rest = quoted_names(d, items.drop_last());
        match items.last() {
            JValue::Str(s) => rest.push(d.spec_quote(s)),
            _ => rest,
        }
    }
}

/// What one alteration becomes: one statement, or, for a column change,
/// statements that all run before the alteration counts as done.
#[derive(Debug)]
pub enum AlterSql {
    Single(String),
    Parts(Vec<String>),
}

pub ghost enum AlterSqlView {
    Single(Seq<char>),
    Parts(Seq<Seq<char>>),
}

impl AlterSql {
    pub open spec fn view(&self) -> AlterSqlView {
        match self {
            AlterSql::Single(s) => AlterSqlView::Single(s@),
            AlterSql::Parts(p) => AlterSqlView::Parts(views(p@)),
        }
    }
}

/// The statements that change one column: its type, its nullability and its
/// default, for those the definition names.
pub open spec fn alter_column_parts<D: SqlDialect>(d: D, head: Seq<char>, def: JValue) -> Seq<Seq<char>> {
    let with_type = match def_str(def, "type"@) {
        Some(t) => seq![head + " TYPE "@ + t],
        None => Seq::empty(),
    };
    let with_null = match def_get(def, "nullable"@) {
        Some(JValue::Bool(b)) => with_type.push(head + " "@ + if b { "DROP NOT NULL"@ } else { "SET NOT NULL"@ }),
        _ => with_type,
    };
    match def_get(def, "default"@) {
        Some(JValue::Null) => with_null.push(head + " DROP DEFAULT"@),
        Some(v) => with_null.push(head + " SET DEFAULT "@ + d.spec_literal(v)),
        None => with_null,
    }
}

/// The constraint clause a definition describes.
pub open spec fn constraint_clause<D: SqlDialect>(d: D, def: JValue) -> Result<Seq<char>, Seq<char>> {
    let kind = def_str_or(def, "type"@, ""@);
    let upper = spec_to_uppercase(kind);
    if upper == "CHECK"@ {
        Ok("CHECK ("@ + def_str_or(def, "condition"@, ""@) + ")"@)
    } else if upper == "UNIQUE"@ {
        match def_get(def, "columns"@) {
            Some(JValue::Array(cols)) => Ok("UNIQUE ("@ + spec_join(quoted_names(d, cols), ", "@) + ")"@),
            _ => Err("UNIQUE constraint requires columns array"@),
        }
    } else if upper == "FOREIGN_KEY"@ || upper == "FOREIGN KEY"@ {
        match def_get(def, "columns"@) {
            Some(JValue::Array(cols)) => match def_str(def, "ref_table"@) {
                Some(ref_table) => match def_get(def, "ref_columns"@) {
                    Some(JValue::Array(ref_cols)) => Ok("FOREIGN KEY ("@ + spec_join(quoted_names(d, cols), ", "@)
                        + ") REFERENCES "@ + d.spec_quote(ref_table) + " ("@ + spec_join(quoted_names(d, ref_cols), ", "@)
                        + ")"@),
                    _ => Err("FOREIGN KEY constraint requires ref_columns array"@),
                },
                None => Err("FOREIGN KEY constraint requires ref_table"@),
            },
            _ => Err("FOREIGN KEY constraint requires columns array"@),
        }
    } else {
        Err("Unsupported constraint type: "@ + kind)
    }
}

/// What one alteration becomes, by its action (in any case, with `_` or a
/// space between the words), or why it cannot be done.
pub open spec fn spec_alter_sql<D: SqlDialect>(
    d: D,
    table: Seq<char>,
    action: Seq<char>,
    column: Option<Seq<char>>,
    definition: Option<JValue>,
) -> Result<AlterSqlView, Seq<char>> {
    let upper = spec_to_uppercase(action);
    let col = match column {
        Some(c) => c,
        None => ""@,
    };
    let alter = "ALTER TABLE "@ + table;
    if upper == "ADD_COLUMN"@ || upper == "ADD COLUMN"@ {
        match definition {
            Some(def) => Ok(AlterSqlView::Single(alter + " ADD COLUMN "@ + d.spec_quote(col) + " "@ + def_str_or(def, "type"@, "TEXT"@))),
            None => Err("ADD_COLUMN requires definition"@),
        }
    } else if upper == "DROP_COLUMN"@ || upper == "DROP COLUMN"@ {
        Ok(AlterSqlView::Single(alter + " DROP COLUMN "@ + d.spec_quote(col)))
    } else if upper == "RENAME_COLUMN"@ || upper == "RENAME COLUMN"@ {
        match definition {
            Some(def) => Ok(AlterSqlView::Single(alter + " RENAME COLUMN "@ + d.spec_quote(def_str_or(def, "old_name"@, ""@))
                + " TO "@ + d.spec_quote(def_str_or(def, "new_name"@, ""@)))),
            None => Err("RENAME_COLUMN requires definition"@),
        }
    } else if upper == "ALTER_COLUMN"@ || upper == "ALTER COLUMN"@ {
        match definition {
            Some(def) => {
                let parts = alter_column_parts(d, alter + " ALTER COLUMN "@ + d.spec_quote(col), def);
                if parts.len() == 0 {
                    Err("ALTER_COLUMN requires at least one of: type, nullable, default"@)
                } else {
                    Ok(AlterSqlView::Parts(parts))
                }
            },
            None => Err("ALTER_COLUMN requires definition"@),
        }
    } else if upper == "ADD_CONSTRAINT"@ || upper == "ADD CONSTRAINT"@ {
        match definition {
            Some(def) => match constraint_clause(d, def) {
                Ok(clause) => Ok(AlterSqlView::Single(alter + " ADD CONSTRAINT "@ + d.spec_quote(def_str_or(def, "name"@, ""@))
                    + " "@ + clause)),
                Err(e) => Err(e),
            },
            None => Err("ADD_CONSTRAINT requires definition"@),
        }
    } else if upper == "DROP_CONSTRAINT"@ || upper == "DROP CONSTRAINT"@ {
        match definition {
            Some(def) => Ok(AlterSqlView::Single(alter + " DROP CONSTRAINT "@ + d.spec_quote(def_str_or(def, "name"@, ""@)))),
            None => Err("DROP_CONSTRAINT requires definition"@),
        }
    } else {
        Err("Unsupported alter operation: "@ + action)
    }
}

fn member<'a>(def: &'a JsonValue, key: &str) -> (r: Option<&'a JsonValue>)
    ensures
        match r {
            Some(v) => def_get(def@, key@) == Some(v@),
            None => def_get(def@, key@) is None,
        },
{
    match def {
        JsonValue::Object(m) => object_get(m, key),
        _ => None,
    }
}

fn member_str<'a>(def: &'a JsonValue, key: &str, fallback: &'a str) -> (r: &'a str)
    ensures
        r@ == def_str_or(def@, key@, fallback@),
{
    match member(def, key) {
        Some(JsonValue::Str(s)) => s.as_str(),
        _ => fallback,
    }
}

fn quote_names<D: SqlDialect>(dialect: &D, items: &Vec<JsonValue>) -> (r: Vec<String>)
    ensures
        views(r@) == quoted_names(*dialect, view_items(items@)),
{
    proof {
        crate::json::lemma_view_items(items@);
    }
    let mut out: Vec<String> = Vec::new();
    let mut i: usize = 0;
    while i < items.len()
        invariant
            i <= items.len(),
            view_items(items@).len() == items.len(),
            forall|k: int| 0 <= k < items.len() ==> #[trigger] view_items(items@)[k] == items@[k]@,
            views(out@) == quoted_names(*dialect, view_items(items@).subrange(0, i as int)),
        decreases items.len() - i,
    {
        let ghost before = out@;
        let ghost vi = view_items(items@);
        assert(vi.subrange(0, i + 1).drop_last() =~= vi.subrange(0, i as int));
        match &items[i] {
            JsonValue::Str(s) => {
                out.push(dialect.quote_identifier(s.as_str()));
                assert(views(out@) =~= views(before).push(out@.last()@));
            },
            _ => {},
        }
        i = i + 1;
    }
    assert(view_items(items@).subrange(0, items@.len() as int) =~= view_items(items@));
    out
}

fn constraint_clause_sql<D: SqlDialect>(dialect: &D, def: &JsonValue) -> (r: Result<String, String>)
    ensures
        match r {
            Ok(s) => constraint_clause(*dialect, def@) == Ok::<Seq<char>, Seq<char>>(s@),
            Err(e) => constraint_clause(*dialect, def@) == Err::<Seq<char>, Seq<char>>(e@),
        },
{
    let kind = member_str(def, "type", "");
    let upper = to_uppercase(kind);
    if str_eq(upper.as_str(), "CHECK") {
        return Ok(cat3("CHECK (", member_str(def, "condition", ""), ")"));
    }
    if str_eq(upper.as_str(), "UNIQUE") {
        return match member(def, "columns") {
            Some(JsonValue::Array(cols)) => {
                let names = quote_names(dialect, cols);
                Ok(cat3("UNIQUE (", join(&names, ", ").as_str(), ")"))
            },
            _ => Err(String::from_str("UNIQUE constraint requires columns array")),
        };
    }
    if str_eq(upper.as_str(), "FOREIGN_KEY") || str_eq(upper.as_str(), "FOREIGN KEY") {
        let cols = match member(def, "columns") {
            Some(JsonValue::Array(c)) => c,
            _ => return Err(String::from_str("FOREIGN KEY constraint requires columns array")),
        };
        let ref_table = match member(def, "ref_table") {
            Some(JsonValue::Str(t)) => t,
            _ => return Err(String::from_str("FOREIGN KEY constraint requires ref_table")),
        };
        let ref_cols = match member(def, "ref_columns") {
            Some(JsonValue::Array(c)) => c,
            _ => return Err(String::from_str("FOREIGN KEY constraint requires ref_columns array")),
        };
        let names = quote_names(dialect, cols);
        let ref_names = quote_names(dialect, ref_cols);
        let mut s = cat3("FOREIGN KEY (", join(&names, ", ").as_str(), ") REFERENCES ");
        s.append(dialect.quote_identifier(ref_table.as_str()).as_str());
        s.append(" (");
        s.append(join(&ref_names, ", ").as_str());
        s.append(")");
        return Ok(s);
    }
    Err(cat("Unsupported constraint type: ", kind))
}

fn alter_column_sql<D: SqlDialect>(dialect: &D, head: &str, def: &JsonValue) -> (r: Vec<String>)
    ensures
        views(r@) == alter_column_parts(*dialect, head@, def@),
{
    let mut parts: Vec<String> = Vec::new();
    if let Some(JsonValue::Str(t)) = member(def, "type") {
        parts.push(cat3(head, " TYPE ", t.as_str()));
    }
    let ghost p1 = views(parts@);
    if let Some(JsonValue::Bool(b)) = member(def, "nullable") {
        let clause = if *b { "DROP NOT NULL" } else { "SET NOT NULL" };
        parts.push(cat3(head, " ", clause));
        assert(views(parts@) =~= p1.push(parts@.last()@));
    }
    let ghost p2 = views(parts@);
    match member(def, "default") {
        Some(JsonValue::Null) => {
            parts.push(cat(head, " DROP DEFAULT"));
            assert(views(parts@) =~= p2.push(parts@.last()@));
        },
        Some(v) => {
            parts.push(cat3(head, " SET DEFAULT ", dialect.json_to_sql_literal(v).as_str()));
            assert(views(parts@) =~= p2.push(parts@.last()@));
        },
        None => {},
    }
    assert(views(parts@) =~= alter_column_parts(*dialect, head@, def@));
    parts
}

/// The SQL for one alteration of a table (given quoted), or why it cannot be done.
pub fn alter_operation_sql<D: SqlDialect>(dialect: &D, table_quoted: &str, op: &AlterOperation) -> (r: Result<AlterSql, String>)
    ensures
        match r {
            Ok(s) => spec_alter_sql(*dialect, table_quoted@, op.action@, crate::error::opt_view(op.column), crate::dynamo::envelope::opt_json_view(op.definition))
                == Ok::<AlterSqlView, Seq<char>>(s@),
            Err(e) => spec_alter_sql(*dialect, table_quoted@, op.action@, crate::error::opt_view(op.column), crate::dynamo::envelope::opt_json_view(op.definition))
                == Err::<AlterSqlView, Seq<char>>(e@),
        },
{
    let upper = to_uppercase(op.action.as_str());
    let u = upper.as_str();
    let col: &str = match &op.column {
        Some(c) => c.as_str(),
        None => "",
    };
    let alter = cat("ALTER TABLE ", table_quoted);
    if str_eq(u, "ADD_COLUMN") || str_eq(u, "ADD COLUMN") {
        return match &op.definition {
            Some(def) => {
                let mut s = cat3(alter.as_str(), " ADD COLUMN ", dialect.quote_identifier(col).as_str());
                s.append(" ");
                s.append(member_str(def, "type", "TEXT"));
                Ok(AlterSql::Single(s))
            },
            None => Err(String::from_str("ADD_COLUMN requires definition")),
        };
    }
    if str_eq(u, "DROP_COLUMN") || str_eq(u, "DROP COLUMN") {
        return Ok(AlterSql::Single(cat3(alter.as_str(), " DROP COLUMN ", dialect.quote_identifier(col).as_str())));
    }
    if str_eq(u, "RENAME_COLUMN") || str_eq(u, "RENAME COLUMN") {
        return match &op.definition {
            Some(def) => {
                let mut s = cat3(alter.as_str(), " RENAME COLUMN ", dialect.quote_identifier(member_str(def, "old_name", "")).as_str());
                s.append(" TO ");
                s.append(dialect.quote_identifier(member_str(def, "new_name", "")).as_str());
                Ok(AlterSql::Single(s))
            },
            None => Err(String::from_str("RENAME_COLUMN requires definition")),
        };
    }
    if str_eq(u, "ALTER_COLUMN") || str_eq(u, "ALTER COLUMN") {
        return match &op.definition {
            Some(def) => {
                let head = cat3(alter.as_str(), " ALTER COLUMN ", dialect.quote_identifier(col).as_str());
                let parts = alter_column_sql(dialect, head.as_str(), def);
                if parts.len() == 0 {
                    Err(String::from_str("ALTER_COLUMN requires at least one of: type, nullable, default"))
                } else {
                    Ok(AlterSql::Parts(parts))
                }
            },
            None => Err(String::from_str("ALTER_COLUMN requires definition")),
        };
    }
    if str_eq(u, "ADD_CONSTRAINT") || str_eq(u, "ADD CONSTRAINT") {
        return match &op.definition {
            Some(def) => match constraint_clause_sql(dialect, def) {
                Ok(clause) => {
                    let mut s = cat3(alter.as_str(), " ADD CONSTRAINT ", dialect.quote_identifier(member_str(def, "name", "")).as_str());
                    s.append(" ");
                    s.append(clause.as_str());
                    Ok(AlterSql::Single(s))
                },
                Err(e) => Err(e),
            },
            None => Err(String::from_str("ADD_CONSTRAINT requires definition")),
        };
    }
    if str_eq(u, "DROP_CONSTRAINT") || str_eq(u, "DROP CONSTRAINT") {
        return match &op.definition {
            Some(def) => Ok(AlterSql::Single(cat3(alter.as_str(), " DROP CONSTRAINT ", dialect.quote_identifier(member_str(def, "name", "")).as_str()))),
            None => Err(String::from_str("DROP_CONSTRAINT requires definition")),
        };
    }
    Err(cat("Unsupported alter operation: ", op.action.as_str()))
}

/// A column another table's column refers to.
#[derive(Debug)]
pub struct ForeignKeyRef {
    pub table: String,
    pub column: String,
}

/// One column of a table to create.
#[derive(Debug)]
pub struct ColumnDef {
    pub name: String,
    pub column_type: String,
    pub nullable: Option<bool>,
    pub primary_key: Option<bool>,
    pub auto_increment: Option<bool>,
    pub default: Option<JsonValue>,
    pub references: Option<ForeignKeyRef>,
}

/// Parameters of the index-creation tool.
#[derive(Debug)]
pub struct CreateIndexParams {
    pub connection_id: String,
    pub table: String,
    pub columns: Vec<String>,
    pub index_name: Option<String>,
    pub unique: Option<bool>,
    pub if_not_exists: Option<bool>,
}

/// Parameters of the index-removal tool.
#[derive(Debug)]
pub struct DropIndexParams {
    pub connection_id: String,
    pub table: Option<String>,
    pub index_name: String,
    pub if_exists: Option<bool>,
}

/// One attribute of a composite type.
#[derive(Debug)]
pub struct TypeAttribute {
    pub name: String,
    pub attribute_type: String,
}

/// Parameters of the type-creation tool.
#[derive(Debug)]
pub struct CreateTypeParams {
    pub connection_id: String,
    pub name: String,
    pub type_kind: String,
    pub values: Option<Vec<String>>,
    pub attributes: Option<Vec<TypeAttribute>>,
    pub if_not_exists: Option<bool>,
}

/// Parameters of the table-removal tool; `confirm` must repeat the table name.
#[derive(Debug)]
pub struct DropTableParams {
    pub connection_id: String,
    pub table: String,
    pub cascade: Option<bool>,
    pub if_exists: Option<bool>,
    pub confirm: String,
}

/// Parameters of the database-removal tool; `confirm` must repeat the database name.
#[derive(Debug)]
pub struct DropDatabaseParams {
    pub connection_id: String,
    pub database: String,
    pub if_exists: Option<bool>,
    pub confirm: String,
}

/// Checks that dropping a table was confirmed by repeating its name exactly.
pub fn validate_drop_table_params(params: &DropTableParams) -> (r: Result<(), String>)
    ensures
        params.confirm@ == params.table@ ==> r is Ok,
        params.confirm@ != params.table@ ==> (r matches Err(m) && m@ == "Confirmation string must match table name exactly"@),
{
    if !str_eq(params.confirm.as_str(), params.table.as_str()) {
        return Err(String::from_str("Confirmation string must match table name exactly"));
    }
    Ok(())
}

/// Checks that dropping a database was confirmed by repeating its name exactly.
pub fn validate_drop_database_params(params: &DropDatabaseParams) -> (r: Result<(), String>)
    ensures
        params.confirm@ == params.database@ ==> r is Ok,
        params.confirm@ != params.database@ ==> (r matches Err(m) && m@ == "Confirmation string must match database name exactly"@),
{
    if !str_eq(params.confirm.as_str(), params.database.as_str()) {
        return Err(String::from_str("Confirmation string must match database name exactly"));
    }
    Ok(())
}

/// The quoted forms of some names.
pub open spec fn quote_all<D: SqlDialect>(d: D, names: Seq<Seq<char>>) -> Seq<Seq<char>> {
    names.map_values(|n: Seq<char>| d.spec_quote(n))
}

fn quote_each<D: SqlDialect>(dialect: &D, names: &Vec<String>) -> (r: Vec<String>)
    ensures
        views(r@) == quote_all(*dialect, views(names@)),
{
    let mut out: Vec<String> = Vec::new();
    let mut i: usize = 0;
    while i < names.len()
        invariant
            i <= names.len(),
            out.len() == i,
            forall|k: int| 0 <= k < i ==> (#[trigger] out@[k])@ == dialect.spec_quote(names@[k]@),
        decreases names.len() - i,
    {
        out.push(dialect.quote_identifier(names[i].as_str()));
        i = i + 1;
    }
    assert(views(out@) =~= quote_all(*dialect, views(names@)));
    out
}

/// `s` with every `.` replaced by `_`.
pub open spec fn dots_to_underscores(s: Seq<char>) -> Seq<char> {
    s.map_values(|c: char| if c == '.' { '_' } else { c })
}

/// The name an index gets when none is given: `idx_`, the table with dots
/// made underscores, then the columns, all joined by underscores.
pub open spec fn default_index_name(table: Seq<char>, columns: Seq<Seq<char>>) -> Seq<char> {
    "idx_"@ + dots_to_underscores(table) + "_"@ + spec_join(columns, "_"@)
}

/// The statement that creates an index.
pub open spec fn spec_create_index_sql<D: SqlDialect>(
    d: D,
    table_quoted: Seq<char>,
    index_name: Seq<char>,
    columns: Seq<Seq<char>>,
    unique: bool,
    if_not_exists: bool,
) -> Seq<char> {
    "CREATE "@ + (if unique { "UNIQUE "@ } else { ""@ }) + (if if_not_exists { "IF NOT EXISTS "@ } else { ""@ })
        + "INDEX "@ + d.spec_quote(index_name) + " ON "@ + table_quoted + " ("@ + spec_join(quote_all(d, columns), ", "@) + ")"@
}

fn replace_dots(s: &str) -> (r: String)
    ensures
        r@ == dots_to_underscores(s@),
{
    let chars = crate::text::chars_of(s);
    let mut out: Vec<char> = Vec::new();
    let mut i: usize = 0;
    while i < chars.len()
        invariant
            i <= chars.len(),
            chars@ == s@,
            out.len() == i,
            forall|k: int| 0 <= k < i ==> #[trigger] out@[k] == (if s@[k] == '.' { '_' } else { s@[k] }),
        decreases chars.len() - i,
    {
        let c = chars[i];
        out.push(if c == '.' { '_' } else { c });
        i = i + 1;
    }
    assert(out@ =~= dots_to_underscores(s@));
    crate::text::string_from_chars(out.as_slice())
}

/// The index name to use (the given one, else the default one) and the
/// statement that creates the index.
pub fn create_index_sql<D: SqlDialect>(
    dialect: &D,
    table: &str,
    table_quoted: &str,
    columns: &Vec<String>,
    index_name: Option<&str>,
    unique: bool,
    if_not_exists: bool,
) -> (r: (String, String))
    ensures
        r.0@ == match index_name {
            Some(n) => n@,
            None => default_index_name(table@, views(columns@)),
        },
        r.1@ == spec_create_index_sql(*dialect, table_quoted@, r.0@, views(columns@), unique, if_not_exists),
{
    let name = match index_name {
        Some(n) => String::from_str(n),
        None => {
            let mut s = cat("idx_", replace_dots(table).as_str());
            s.append("_");
            s.append(join(columns, "_").as_str());
            s
        },
    };
    let quoted_columns = quote_each(dialect, columns);
    let mut sql = String::from_str("CREATE ");
    sql.append(if unique { "UNIQUE " } else { "" });
    sql.append(if if_not_exists { "IF NOT EXISTS " } else { "" });
    sql.append("INDEX ");
    sql.append(dialect.quote_identifier(name.as_str()).as_str());
    sql.append(" ON ");
    sql.append(table_quoted);
    sql.append(" (");
    sql.append(join(&quoted_columns, ", ").as_str());
    sql.append(")");
    (name, sql)
}

/// The statement that drops an index: on its table when one is named (then
/// without `IF EXISTS`), else on its own, with `IF EXISTS` when asked.
pub fn drop_index_sql<D: SqlDialect>(dialect: &D, table: Option<&str>, index_name: &str, if_exists: bool) -> (r: String)
    ensures
        r@ == match table {
            Some(t) => "DROP INDEX "@ + dialect.spec_quote(index_name@) + " ON "@ + dialect.spec_quote(t@),
            None => "DROP INDEX "@ + (if if_exists { "IF EXISTS "@ } else { ""@ }) + dialect.spec_quote(index_name@),
        },
{
    let index_quoted = dialect.quote_identifier(index_name);
    match table {
        Some(t) => {
            let mut s = cat3("DROP INDEX ", index_quoted.as_str(), " ON ");
            s.append(dialect.quote_identifier(t).as_str());
            s
        },
        None => cat3("DROP INDEX ", if if_exists { "IF EXISTS " } else { "" }, index_quoted.as_str()),
    }
}

/// The definition of one column in a table-creation statement.
pub open spec fn spec_column_def<D: SqlDialect>(d: D, c: ColumnDef) -> Seq<char> {
    d.spec_quote(c.name@) + " "@ + c.column_type@
        + (if c.nullable == Some(false) { " NOT NULL"@ } else { ""@ })
        + (if c.primary_key == Some(true) { " PRIMARY KEY"@ } else { ""@ })
        + (if c.auto_increment == Some(true) { " AUTOINCREMENT"@ } else { ""@ })
        + (match c.default { Some(v) => " DEFAULT "@ + d.spec_literal(v@), None => ""@ })
        + (match c.references {
            Some(fk) => " REFERENCES "@ + d.spec_quote(fk.table@) + " ("@ + d.spec_quote(fk.column@) + ")"@,
            None => ""@,
        })
}

fn column_def_sql<D: SqlDialect>(dialect: &D, c: &ColumnDef) -> (r: String)
    ensures
        r@ == spec_column_def(*dialect, *c),
{
    let mut s = cat3(dialect.quote_identifier(c.name.as_str()).as_str(), " ", c.column_type.as_str());
    s.append(if c.nullable == Some(false) { " NOT NULL" } else { "" });
    s.append(if c.primary_key == Some(true) { " PRIMARY KEY" } else { "" });
    s.append(if c.auto_increment == Some(true) { " AUTOINCREMENT" } else { "" });
    match &c.default {
        Some(v) => s.append(cat(" DEFAULT ", dialect.json_to_sql_literal(v).as_str()).as_str()),
        None => s.append(""),
    }
    match &c.references {
        Some(fk) => {
            let mut r = cat3(" REFERENCES ", dialect.quote_identifier(fk.table.as_str()).as_str(), " (");
            r.append(dialect.quote_identifier(fk.column.as_str()).as_str());
            r.append(")");
            s.append(r.as_str());
        },
        None => s.append(""),
    }
    s
}

/// The statement that creates a table with these columns and, if given, a
/// composite primary key.
pub fn create_table_sql<D: SqlDialect>(
    dialect: &D,
    table_quoted: &str,
    columns: &Vec<ColumnDef>,
    primary_key: Option<&Vec<String>>,
    if_not_exists: bool,
) -> (r: String)
    ensures
        r@ == "CREATE TABLE "@ + (if if_not_exists { "IF NOT EXISTS "@ } else { ""@ }) + table_quoted@ + " ("@
            + spec_join(columns@.map_values(|c: ColumnDef| spec_column_def(*dialect, c)), ", "@)
            + (match primary_key {
                Some(pk) => ", PRIMARY KEY ("@ + spec_join(quote_all(*dialect, views(pk@)), ", "@) + ")"@,
                None => ""@,
            }) + ")"@,
{
    let mut defs: Vec<String> = Vec::new();
    let mut i: usize = 0;
    while i < columns.len()
        invariant
            i <= columns.len(),
            defs.len() == i,
            forall|k: int| 0 <= k < i ==> (#[trigger] defs@[k])@ == spec_column_def(*dialect, columns@[k]),
        decreases columns.len() - i,
    {
        defs.push(column_def_sql(dialect, &columns[i]));
        i = i + 1;
    }
    assert(views(defs@) =~= columns@.map_values(|c: ColumnDef| spec_column_def(*dialect, c)));
    let pk_clause = match primary_key {
        Some(pk) => cat3(", PRIMARY KEY (", join(&quote_each(dialect, pk), ", ").as_str(), ")"),
        None => String::from_str(""),
    };
    let mut sql = String::from_str("CREATE TABLE ");
    sql.append(if if_not_exists { "IF NOT EXISTS " } else { "" });
    sql.append(table_quoted);
    sql.append(" (");
    sql.append(join(&defs, ", ").as_str());
    sql.append(pk_clause.as_str());
    sql.append(")");
    sql
}

/// The SQL an alteration becomes, for a table given quoted.
pub open spec fn op_sql<D: SqlDialect>(d: D, table_quoted: Seq<char>, op: AlterOperation) -> Result<AlterSqlView, Seq<char>> {
    spec_alter_sql(d, table_quoted, op.action@, crate::error::opt_view(op.column), crate::dynamo::envelope::opt_json_view(op.definition))
}

/// The statements an alteration runs, in order.
pub open spec fn alter_statements(v: AlterSqlView) -> Seq<Seq<char>> {
    match v {
        AlterSqlView::Single(s) => seq![s],
        AlterSqlView::Parts(p) => p,
    }
}

/// The statement was run, giving this outcome.
pub open spec fn ran_one<X: Fn(&str) -> Result<(), String>>(
    execute: X,
    statement: Seq<char>,
    outcome: Result<(), Seq<char>>,
) -> bool {
    exists|sql: &str, o: Result<(), String>| sql@ == statement && #[trigger] execute.ensures((sql,), o) && outcome == match o {
        Ok(_) => Ok::<(), Seq<char>>(()),
        Err(e) => Err::<(), Seq<char>>(e@),
    }
}

/// The statements were run in order, each giving its outcome, until the
/// first that failed or until all had run.
pub open spec fn ran<X: Fn(&str) -> Result<(), String>>(
    execute: X,
    statements: Seq<Seq<char>>,
    outcomes: Seq<Result<(), Seq<char>>>,
) -> bool {
    &&& outcomes.len() <= statements.len()
    &&& forall|k: int| 0 <= k < outcomes.len() ==> ran_one(execute, statements[k], #[trigger] outcomes[k])
    &&& forall|k: int| 0 <= k < outcomes.len() - 1 ==> #[trigger] outcomes[k] is Ok
    &&& outcomes.len() < statements.len() ==> outcomes.len() > 0 && outcomes.last() is Err
}

/// What was run for an alteration: nothing when it has no SQL, else its
/// statements as `ran` says.
pub open spec fn op_ran<D: SqlDialect, X: Fn(&str) -> Result<(), String>>(
    execute: X,
    d: D,
    table_quoted: Seq<char>,
    op: AlterOperation,
    outcomes: Seq<Result<(), Seq<char>>>,
) -> bool {
    match op_sql(d, table_quoted, op) {
        Err(_) => outcomes.len() == 0,
        Ok(v) => ran(execute, alter_statements(v), outcomes),
    }
}

/// The report of an alteration that ran.
pub open spec fn alter_success(action: Seq<char>) -> JValue {
    JValue::Object(seq![("action"@, JValue::Str(action)), ("success"@, JValue::Bool(true))])
}

/// The report of a single-statement alteration that failed.
pub open spec fn alter_failure(action: Seq<char>, error: Seq<char>) -> JValue {
    JValue::Object(seq![
        ("action"@, JValue::Str(action)),
        ("success"@, JValue::Bool(false)),
        ("error"@, JValue::Str(error)),
    ])
}

/// What one alteration comes to, given the outcomes of its statements: an
/// alteration without SQL stops the whole request with its reason; a single
/// statement is reported as done or failed; a column change whose part fails
/// stops the whole request, else it is reported done.
pub open spec fn alter_step<D: SqlDialect>(
    d: D,
    table_quoted: Seq<char>,
    op: AlterOperation,
    outcomes: Seq<Result<(), Seq<char>>>,
) -> Result<JValue, Seq<char>> {
    match op_sql(d, table_quoted, op) {
        Err(e) => Err(e),
        Ok(AlterSqlView::Single(_)) => match outcomes[0] {
            Ok(_) => Ok(alter_success(op.action@)),
            Err(e) => Ok(alter_failure(op.action@, e)),
        },
        Ok(AlterSqlView::Parts(_)) => if outcomes.len() > 0 && outcomes.last() is Err {
            Err("Alter column error: "@ + outcomes.last()->Err_0)
        } else {
            Ok(alter_success(op.action@))
        },
    }
}

/// The reports of the first alterations, one per outcome list, or the error
/// that stopped them; `None` when outcomes go on past a stop or past the
/// alterations.
pub open spec fn alter_walk<D: SqlDialect>(
    d: D,
    table_quoted: Seq<char>,
    ops: Seq<AlterOperation>,
    outs: Seq<Seq<Result<(), Seq<char>>>>,
) -> Option<Result<Seq<JValue>, Seq<char>>>
    decreases outs.len(),
{
    if outs.len() == 0 {
        Some(Ok(Seq::empty()))
    } else if outs.len() > ops.len() {
        None
    } else {
        match alter_walk(d, table_quoted, ops, outs.drop_last()) {
            Some(Ok(reports)) => match alter_step(d, table_quoted, ops[outs.len() - 1], outs.last()) {
                Ok(j) => Some(Ok(reports.push(j))),
                Err(e) => Some(Err(e)),
            },
            _ => None,
        }
    }
}

/// The answer to a table alteration.
pub open spec fn alter_response(table: Seq<char>, reports: Seq<JValue>) -> JValue {
    JValue::Object(seq![
        ("altered"@, JValue::Bool(true)),
        ("table"@, JValue::Str(table)),
        ("operations"@, JValue::Array(reports)),
    ])
}

fn report_json(action: &String, error: Option<String>) -> (r: JsonValue)
    ensures
        r@ == match error {
            None => alter_success(action@),
            Some(e) => alter_failure(action@, e@),
        },
{
    let mut members: Vec<(String, JsonValue)> = Vec::new();
    members.push((String::from_str("action"), JsonValue::Str(action.clone())));
    match error {
        None => {
            members.push((String::from_str("success"), JsonValue::Bool(true)));
        },
        Some(e) => {
            members.push((String::from_str("success"), JsonValue::Bool(false)));
            members.push((String::from_str("error"), JsonValue::Str(e)));
        },
    }
    proof {
        crate::json::lemma_view_members(members@);
    }
    assert(view_members(members@) =~= match error {
        None => seq![("action"@, JValue::Str(action@)), ("success"@, JValue::Bool(true))],
        Some(e) => seq![("action"@, JValue::Str(action@)), ("success"@, JValue::Bool(false)), ("error"@, JValue::Str(e@))],
    });
    JsonValue::Object(members)
}

fn run_statements<X: Fn(&str) -> Result<(), String>>(execute: &X, statements: &Vec<String>) -> (r: (Option<String>, Ghost<Seq<Result<(), Seq<char>>>>))
    requires
        forall|sql: &str| execute.requires((sql,)),
    ensures
        ran(*execute, views(statements@), r.1@),
        match r.0 {
            Some(e) => r.1@.len() > 0 && r.1@.last() == Err::<(), Seq<char>>(e@),
            None => forall|k: int| 0 <= k < r.1@.len() ==> #[trigger] r.1@[k] is Ok,
        },
{
    let ghost stmts = views(statements@);
    let ghost mut outs: Seq<Result<(), Seq<char>>> = Seq::empty();
    let mut i: usize = 0;
    while i < statements.len()
        invariant
            i <= statements.len(),
            stmts == views(statements@),
            stmts.len() == statements.len(),
            forall|sql: &str| execute.requires((sql,)),
            outs.len() == i,
            forall|k: int| 0 <= k < i ==> #[trigger] outs[k] is Ok,
            forall|k: int| 0 <= k < outs.len() ==> ran_one(*execute, stmts[k], #[trigger] outs[k]),
        decreases statements.len() - i,
    {
        let sql = statements[i].as_str();
        assert(sql@ == stmts[i as int]);
        let outcome = execute(sql);
        let ghost o = outcome;
        assert(execute.ensures((sql,), o));
        match outcome {
            Ok(()) => {
                proof {
                    outs = outs.push(Ok::<(), Seq<char>>(()));
                    assert(outs[i as int] == match o { Ok(_) => Ok::<(), Seq<char>>(()), Err(e) => Err::<(), Seq<char>>(e@) });
                }
            },
            Err(e) => {
                proof {
                    let old_outs = outs;
                    outs = outs.push(Err::<(), Seq<char>>(e@));
                    assert(outs[i as int] == match o { Ok(_) => Ok::<(), Seq<char>>(()), Err(e) => Err::<(), Seq<char>>(e@) });
                    assert forall|k: int| 0 <= k < outs.len() - 1 implies #[trigger] outs[k] is Ok by {
                        assert(outs[k] == old_outs[k]);
                    }
                    assert forall|k: int| 0 <= k < outs.len() implies ran_one(*execute, stmts[k], #[trigger] outs[k]) by {
                        if k < i {
                            assert(outs[k] == old_outs[k]);
                        }
                    }
                }
                return (Some(e), Ghost(outs));
            },
        }
        i = i + 1;
    }
    (None, Ghost(outs))
}

/// Alters a table (given by name, and quoted for SQL): each alteration
/// becomes its SQL and runs through `execute`, in order. An alteration that
/// has no SQL stops the request with its reason; a failed single statement
/// is reported and the next alteration runs; a failed part of a column
/// change stops the request. When every alteration was handled, the answer
/// lists their reports.
pub fn alter_table_with<D: SqlDialect, X: Fn(&str) -> Result<(), String>>(
    dialect: &D,
    table: &str,
    table_quoted: &str,
    operations: &Vec<AlterOperation>,
    execute: X,
) -> (r: Result<JsonValue, String>)
    requires
        forall|sql: &str| execute.requires((sql,)),
    ensures
        exists|outs: Seq<Seq<Result<(), Seq<char>>>>| #![trigger alter_walk(*dialect, table_quoted@, operations@, outs)] {
            &&& forall|i: int| 0 <= i < outs.len() ==> #[trigger] op_ran(execute, *dialect, table_quoted@, operations@[i], outs[i])
            &&& match alter_walk(*dialect, table_quoted@, operations@, outs) {
                Some(Ok(reports)) => outs.len() == operations.len() && (r matches Ok(v) && v@ == alter_response(table@, reports)),
                Some(Err(e)) => r matches Err(m) && m@ == e,
                None => false,
            }
        },
{
    let mut reports: Vec<JsonValue> = Vec::new();
    let ghost mut outs: Seq<Seq<Result<(), Seq<char>>>> = Seq::empty();
    let mut i: usize = 0;
    while i < operations.len()
        invariant
            i <= operations.len(),
            forall|sql: &str| execute.requires((sql,)),
            outs.len() == i,
            forall|k: int| 0 <= k < outs.len() ==> #[trigger] op_ran(execute, *dialect, table_quoted@, operations@[k], outs[k]),
            alter_walk(*dialect, table_quoted@, operations@, outs) == Some(Ok::<Seq<JValue>, Seq<char>>(view_items(reports@))),
        decreases operations.len() - i,
    {
        let op = &operations[i];
        let ghost before = outs;
        match alter_operation_sql(dialect, table_quoted, op) {
            Err(e) => {
                proof {
                    outs = outs.push(Seq::empty());
                    assert(outs.drop_last() =~= before);
                    assert forall|k: int| 0 <= k < outs.len() implies #[trigger] op_ran(execute, *dialect, table_quoted@, operations@[k], outs[k]) by {
                        if k < i {
                            assert(outs[k] == before[k]);
                        }
                    }
                }
                return Err(e);
            },
            Ok(AlterSql::Single(s)) => {
                let mut statements: Vec<String> = Vec::new();
                statements.push(s);
                let (error, Ghost(o)) = run_statements(&execute, &statements);
                assert(views(statements@) =~= alter_statements(op_sql(*dialect, table_quoted@, operations@[i as int])->Ok_0));
                let report = report_json(&op.action, error);
                let ghost rseq = reports@;
                let ghost rbefore = view_items(reports@);
                reports.push(report);
                proof {
                    outs = outs.push(o);
                    assert(outs.drop_last() =~= before);
                    assert(o.len() == 1);
                    assert(reports@.drop_last() =~= rseq);
                    assert(view_items(reports@) == rbefore.push(report@));
                    assert forall|k: int| 0 <= k < outs.len() implies #[trigger] op_ran(execute, *dialect, table_quoted@, operations@[k], outs[k]) by {
                        if k < i {
                            assert(outs[k] == before[k]);
                        }
                    }
                }
            },
            Ok(AlterSql::Parts(parts)) => {
                let (error, Ghost(o)) = run_statements(&execute, &parts);
                match error {
                    Some(e) => {
                        proof {
                            outs = outs.push(o);
                            assert(outs.drop_last() =~= before);
                            assert forall|k: int| 0 <= k < outs.len() implies #[trigger] op_ran(execute, *dialect, table_quoted@, operations@[k], outs[k]) by {
                                if k < i {
                                    assert(outs[k] == before[k]);
                                }
                            }
                        }
                        return Err(cat("Alter column error: ", e.as_str()));
                    },
                    None => {
                        let report = report_json(&op.action, None);
                        let ghost rseq = reports@;
                        let ghost rbefore = view_items(reports@);
                        reports.push(report);
                        proof {
                            outs = outs.push(o);
                            assert(outs.drop_last() =~= before);
                            assert(reports@.drop_last() =~= rseq);
                            assert(view_items(reports@) == rbefore.push(report@));
                            assert forall|k: int| 0 <= k < outs.len() implies #[trigger] op_ran(execute, *dialect, table_quoted@, operations@[k], outs[k]) by {
                                if k < i {
                                    assert(outs[k] == before[k]);
                                }
                            }
                        }
                    },
                }
            },
        }
        i = i + 1;
    }
    let mut members: Vec<(String, JsonValue)> = Vec::new();
    members.push((String::from_str("altered"), JsonValue::Bool(true)));
    members.push((String::from_str("table"), JsonValue::Str(String::from_str(table))));
    let ghost rv = view_items(reports@);
    members.push((String::from_str("operations"), JsonValue::Array(reports)));
    proof {
        crate::json::lemma_view_members(members@);
    }
    assert(view_members(members@) =~= seq![
        ("altered"@, JValue::Bool(true)),
        ("table"@, JValue::Str(table@)),
        ("operations"@, JValue::Array(rv)),
    ]);
    Ok(JsonValue::Object(members))
}

proof fn lemma_tails_differ(head: Seq<char>, x: Seq<char>, y: Seq<char>, k: int)
    requires
        0 <= k < x.len(),
        k < y.len(),
        x[k] != y[k],
    ensures
        head + x != head + y,
{
    assert((head + x)[head.len() + k] == x[k]);
    assert((head + y)[head.len() + k] == y[k]);
}

/// A column change's nullability statement follows the definition's
/// `nullable` flag: `true` drops the NOT NULL constraint and never sets it,
/// `false` sets it and never drops it.
pub proof fn lemma_nullable_flag_decides_constraint<D: SqlDialect>(d: D, head: Seq<char>, def: JValue, b: bool)
    requires
        def_get(def, "nullable"@) == Some(JValue::Bool(b)),
    ensures
        b ==> alter_column_parts(d, head, def).contains(head + " DROP NOT NULL"@)
            && !alter_column_parts(d, head, def).contains(head + " SET NOT NULL"@),
        !b ==> alter_column_parts(d, head, def).contains(head + " SET NOT NULL"@)
            && !alter_column_parts(d, head, def).contains(head + " DROP NOT NULL"@),
{
    reveal_strlit(" DROP NOT NULL");
    reveal_strlit(" SET NOT NULL");
    reveal_strlit(" TYPE ");
    reveal_strlit(" DROP DEFAULT");
    reveal_strlit(" SET DEFAULT ");
    reveal_strlit(" ");
    reveal_strlit("DROP NOT NULL");
    reveal_strlit("SET NOT NULL");
    let parts = alter_column_parts(d, head, def);
    let drop = head + " DROP NOT NULL"@;
    let set = head + " SET NOT NULL"@;
    assert(head + " "@ + "DROP NOT NULL"@ =~= drop);
    assert(head + " "@ + "SET NOT NULL"@ =~= set);
    lemma_tails_differ(head, " DROP NOT NULL"@, " SET NOT NULL"@, 1);
    // What each other statement of the change looks like.
    assert forall|i: int| 0 <= i < parts.len() && parts[i] != drop && parts[i] != set implies
        (exists|t: Seq<char>| parts[i] == head + " TYPE "@ + t)
        || parts[i] == head + " DROP DEFAULT"@
        || (exists|l: Seq<char>| parts[i] == head + " SET DEFAULT "@ + l) by {
        let with_type = match def_str(def, "type"@) {
            Some(t) => seq![head + " TYPE "@ + t],
            None => Seq::<Seq<char>>::empty(),
        };
        let with_null = with_type.push(head + " "@ + if b { "DROP NOT NULL"@ } else { "SET NOT NULL"@ });
        if i == 0 && with_type.len() == 1 {
            let t = def_str(def, "type"@)->0;
            assert(parts[i] == head + " TYPE "@ + t);
        } else if i == with_type.len() {
            assert(parts[i] == with_null[i]);
        } else {
            match def_get(def, "default"@) {
                Some(JValue::Null) => assert(parts[i] == head + " DROP DEFAULT"@),
                Some(v) => assert(parts[i] == head + " SET DEFAULT "@ + d.spec_literal(v)),
                None => {},
            }
        }
    }
    assert forall|t: Seq<char>| head + " TYPE "@ + t != drop && head + " TYPE "@ + t != set by {
        assert(head + " TYPE "@ + t =~= head + (" TYPE "@ + t));
        lemma_tails_differ(head, " TYPE "@ + t, " DROP NOT NULL"@, 1);
        lemma_tails_differ(head, " TYPE "@ + t, " SET NOT NULL"@, 1);
    }
    assert forall|l: Seq<char>| head + " SET DEFAULT "@ + l != drop && head + " SET DEFAULT "@ + l != set by {
        assert(head + " SET DEFAULT "@ + l =~= head + (" SET DEFAULT "@ + l));
        lemma_tails_differ(head, " SET DEFAULT "@ + l, " DROP NOT NULL"@, 1);
        lemma_tails_differ(head, " SET DEFAULT "@ + l, " SET NOT NULL"@, 5);
    }
    lemma_tails_differ(head, " DROP DEFAULT"@, " DROP NOT NULL"@, 6);
    lemma_tails_differ(head, " DROP DEFAULT"@, " SET NOT NULL"@, 1);
    let with_type = match def_str(def, "type"@) {
        Some(t) => seq![head + " TYPE "@ + t],
        None => Seq::<Seq<char>>::empty(),
    };
    let k = with_type.len() as int;
    assert(parts[k] == (if b { drop } else { set }));
}

} // verus!
