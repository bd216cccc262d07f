//! DynamoDB command envelopes: the JSON objects that name an operation,
//! a table and the operation's fields, and their reader.
use vstd::prelude::*;
use crate::error::{opt_view, DbError, DbErrorView, query_failed_view, syntax_error_view};
use crate::json::{
    find_member, lemma_view_members, member_get, object_get, parse_json_text, spec_parse_json,
    view_members, JNum, JValue, JsonValue,
};
use crate::text::{cat, cat3, join, spec_join, spec_trim, str_eq, str_in, str_views, trim, views};

verus! {

/// The operations the DynamoDB driver accepts, in the order messages list them.
pub open spec fn mvp_commands() -> Seq<Seq<char>> {
    seq!["scan"@, "query"@, "put"@, "update"@, "delete"@]
}

pub open spec fn spec_is_supported_command(op: Seq<char>) -> bool {
    mvp_commands().contains(op)
}

/// Whether `op` is one of the supported operations.
pub fn is_supported_command(op: &str) -> (r: bool)
    ensures
        r == spec_is_supported_command(op@),
{
    let commands: Vec<&str> = vec!["scan", "query", "put", "update", "delete"];
    assert(str_views(commands@) =~= mvp_commands());
    str_in(op, &commands)
}

pub open spec fn spec_unsupported_command_message(op: Seq<char>) -> Seq<char> {
    "Unsupported DynamoDB operation '"@ + op + "'. MVP supports only: "@ + spec_join(
        mvp_commands(),
        ", "@,
    ) + "."@
}

/// The message for an operation outside the supported set.
pub fn unsupported_command_message(op: &str) -> (r: String)
    ensures
        r@ == spec_unsupported_command_message(op@),
{
    let commands: Vec<String> = vec![
        String::from_str("scan"),
        String::from_str("query"),
        String::from_str("put"),
        String::from_str("update"),
        String::from_str("delete"),
    ];
    assert(views(commands@) =~= mvp_commands());
    let listed = join(&commands, ", ");
    let mut s = cat3("Unsupported DynamoDB operation '", op, "'. MVP supports only: ");
    s.append(listed.as_str());
    s.append(".");
    s
}

/// A parsed command envelope.
#[derive(Debug)]
pub enum DynamoCommandEnvelope {
    Scan {
        database: Option<String>,
        table: String,
        filter: Option<JsonValue>,
        limit: Option<u32>,
        offset: Option<u64>,
    },
    Query {
        database: Option<String>,
        table: String,
        filter: Option<JsonValue>,
        limit: Option<u32>,
        offset: Option<u64>,
    },
    Put { database: Option<String>, table: String, item: JsonValue },
    Update {
        database: Option<String>,
        table: String,
        key: JsonValue,
        update: JsonValue,
        many: bool,
        upsert: bool,
    },
    Delete { database: Option<String>, table: String, key: JsonValue, many: bool },
}

pub ghost enum EnvelopeView {
    Scan {
        database: Option<Seq<char>>,
        table: Seq<char>,
        filter: Option<JValue>,
        limit: Option<u32>,
        offset: Option<u64>,
    },
    Query {
        database: Option<Seq<char>>,
        table: Seq<char>,
        filter: Option<JValue>,
        limit: Option<u32>,
        offset: Option<u64>,
    },
    Put { database: Option<Seq<char>>, table: Seq<char>, item: JValue },
    Update {
        database: Option<Seq<char>>,
        table: Seq<char>,
        key: JValue,
        update: JValue,
        many: bool,
        upsert: bool,
    },
    Delete { database: Option<Seq<char>>, table: Seq<char>, key: JValue, many: bool },
}

pub open spec fn opt_json_view(o: Option<JsonValue>) -> Option<JValue> {
    match o {
        Some(v) => Some(v@),
        None => None,
    }
}

impl DynamoCommandEnvelope {
    pub open spec fn view(&self) -> EnvelopeView {
        match self {
            DynamoCommandEnvelope::Scan { database, table, filter, limit, offset } => EnvelopeView::Scan {
                database: opt_view(*database),
                table: table@,
                filter: opt_json_view(*filter),
                limit: *limit,
                offset: *offset,
            },
            DynamoCommandEnvelope::Query { database, table, filter, limit, offset } => EnvelopeView::Query {
                database: opt_view(*database),
                table: table@,
                filter: opt_json_view(*filter),
                limit: *limit,
                offset: *offset,
            },
            DynamoCommandEnvelope::Put { database, table, item } => EnvelopeView::Put {
                database: opt_view(*database),
                table: table@,
                item: item@,
            },
            DynamoCommandEnvelope::Update { database, table, key, update, many, upsert } => EnvelopeView::Update {
                database: opt_view(*database),
                table: table@,
                key: key@,
                update: update@,
                many: *many,
                upsert: *upsert,
            },
            DynamoCommandEnvelope::Delete { database, table, key, many } => EnvelopeView::Delete {
                database: opt_view(*database),
                table: table@,
                key: key@,
                many: *many,
            },
        }
    }
}

pub type Members = Seq<(Seq<char>, JValue)>;

/// A required string field, trimmed, that must not be empty.
pub open spec fn spec_required_string(m: Members, key: Seq<char>) -> Result<Seq<char>, DbErrorView> {
    match member_get(m, key) {
        None => Err(query_failed_view("Missing required field '"@ + key + "'"@)),
        Some(JValue::Str(s)) => if spec_trim(s).len() == 0 {
            Err(query_failed_view("Field '"@ + key + "' must not be empty"@))
        } else {
            Ok(spec_trim(s))
        },
        Some(_) => Err(query_failed_view("Field '"@ + key + "' must be a string"@)),
    }
}

/// An optional string field, trimmed; blank counts as absent.
pub open spec fn spec_optional_string(m: Members, key: Seq<char>) -> Result<Option<Seq<char>>, DbErrorView> {
    match member_get(m, key) {
        None => Ok(None),
        Some(JValue::Str(s)) => if spec_trim(s).len() == 0 {
            Ok(None)
        } else {
            Ok(Some(spec_trim(s)))
        },
        Some(_) => Err(query_failed_view("Field '"@ + key + "' must be a string"@)),
    }
}

/// A required field that must hold a JSON object.
pub open spec fn spec_required_object(m: Members, key: Seq<char>) -> Result<JValue, DbErrorView> {
    match member_get(m, key) {
        None => Err(query_failed_view("Missing required field '"@ + key + "'"@)),
        Some(v) => if v is Object {
            Ok(v)
        } else {
            Err(query_failed_view("Field '"@ + key + "' must be a JSON object"@))
        },
    }
}

/// An optional field that holds a JSON object when present; `null` counts as absent.
pub open spec fn spec_optional_object(m: Members, key: Seq<char>) -> Result<Option<JValue>, DbErrorView> {
    match member_get(m, key) {
        None => Ok(None),
        Some(v) => if v is Null {
            Ok(None)
        } else if v is Object {
            Ok(Some(v))
        } else {
            Err(query_failed_view("Field '"@ + key + "' must be a JSON object when provided"@))
        },
    }
}

pub open spec fn spec_optional_bool(m: Members, key: Seq<char>) -> Result<Option<bool>, DbErrorView> {
    match member_get(m, key) {
        None => Ok(None),
        Some(JValue::Bool(b)) => Ok(Some(b)),
        Some(_) => Err(query_failed_view("Field '"@ + key + "' must be a boolean"@)),
    }
}

pub open spec fn spec_optional_u64(m: Members, key: Seq<char>) -> Result<Option<u64>, DbErrorView> {
    match member_get(m, key) {
        None => Ok(None),
        Some(JValue::Number(JNum::PosInt(n))) => Ok(Some(n as u64)),
        Some(_) => Err(query_failed_view("Field '"@ + key + "' must be a positive integer"@)),
    }
}

pub open spec fn spec_optional_u32(m: Members, key: Seq<char>) -> Result<Option<u32>, DbErrorView> {
    match member_get(m, key) {
        None => Ok(None),
        Some(JValue::Number(JNum::PosInt(n))) => if n <= u32::MAX {
            Ok(Some(n as u32))
        } else {
            Err(query_failed_view("Field '"@ + key + "' exceeds maximum supported integer range"@))
        },
        Some(_) => Err(query_failed_view("Field '"@ + key + "' must be a positive integer"@)),
    }
}

/// The first member name that is not among `allowed`.
pub open spec fn first_disallowed(m: Members, allowed: Seq<Seq<char>>) -> Option<Seq<char>>
    decreases m.len(),
{
    if m.len() == 0 {
        None
    } else if !allowed.contains(m[0].0) {
        Some(m[0].0)
    } else {
        first_disallowed(m.drop_first(), allowed)
    }
}

/// The operation name as written, for messages; `unknown` when it is not a string.
pub open spec fn op_label(m: Members) -> Seq<char> {
    match member_get(m, "op"@) {
        Some(JValue::Str(s)) => s,
        _ => "unknown"@,
    }
}

pub open spec fn spec_validate_fields(m: Members, allowed: Seq<Seq<char>>) -> Result<(), DbErrorView> {
    match first_disallowed(m, allowed) {
        Some(k) => Err(
            query_failed_view(
                "Unsupported field '"@ + k + "' for DynamoDB '"@ + op_label(m) + "' command envelope"@,
            ),
        ),
        None => Ok(()),
    }
}

pub open spec fn read_fields() -> Seq<Seq<char>> {
    seq!["op"@, "database"@, "table"@, "filter"@, "limit"@, "offset"@]
}

pub open spec fn put_fields() -> Seq<Seq<char>> {
    seq!["op"@, "database"@, "table"@, "item"@]
}

pub open spec fn update_fields() -> Seq<Seq<char>> {
    seq!["op"@, "database"@, "table"@, "key"@, "update"@, "many"@, "upsert"@]
}

pub open spec fn delete_fields() -> Seq<Seq<char>> {
    seq!["op"@, "database"@, "table"@, "key"@, "many"@]
}

/// The fields of a scan or query envelope, read in order, the first failure winning.
pub open spec fn spec_read_envelope(m: Members, is_scan: bool) -> Result<EnvelopeView, DbErrorView> {
    match spec_validate_fields(m, read_fields()) {
        Err(e) => Err(e),
        Ok(_) => match spec_optional_string(m, "database"@) {
            Err(e) => Err(e),
            Ok(database) => match spec_required_string(m, "table"@) {
                Err(e) => Err(e),
                Ok(table) => match spec_optional_object(m, "filter"@) {
                    Err(e) => Err(e),
                    Ok(filter) => match spec_optional_u32(m, "limit"@) {
                        Err(e) => Err(e),
                        Ok(limit) => match spec_optional_u64(m, "offset"@) {
                            Err(e) => Err(e),
                            Ok(offset) => if is_scan {
                                Ok(EnvelopeView::Scan { database, table, filter, limit, offset })
                            } else {
                                Ok(EnvelopeView::Query { database, table, filter, limit, offset })
                            },
                        },
                    },
                },
            },
        },
    }
}

pub open spec fn spec_put_envelope(m: Members) -> Result<EnvelopeView, DbErrorView> {
    match spec_validate_fields(m, put_fields()) {
        Err(e) => Err(e),
        Ok(_) => match spec_optional_string(m, "database"@) {
            Err(e) => Err(e),
            Ok(database) => match spec_required_string(m, "table"@) {
                Err(e) => Err(e),
                Ok(table) => match spec_required_object(m, "item"@) {
                    Err(e) => Err(e),
                    Ok(item) => Ok(EnvelopeView::Put { database, table, item }),
                },
            },
        },
    }
}

pub open spec fn unwrap_flag(o: Option<bool>) -> bool {
    match o {
        Some(b) => b,
        None => false,
    }
}

pub open spec fn spec_update_envelope(m: Members) -> Result<EnvelopeView, DbErrorView> {
    match spec_validate_fields(m, update_fields()) {
        Err(e) => Err(e),
        Ok(_) => match spec_optional_string(m, "database"@) {
            Err(e) => Err(e),
            Ok(database) => match spec_required_string(m, "table"@) {
                Err(e) => Err(e),
                Ok(table) => match spec_required_object(m, "key"@) {
                    Err(e) => Err(e),
                    Ok(key) => match spec_required_object(m, "update"@) {
                        Err(e) => Err(e),
                        Ok(update) => match spec_optional_bool(m, "many"@) {
                            Err(e) => Err(e),
                            Ok(many) => match spec_optional_bool(m, "upsert"@) {
                                Err(e) => Err(e),
                                Ok(upsert) => Ok(
                                    EnvelopeView::Update {
                                        database,
                                        table,
                                        key,
                                        update,
                                        many: unwrap_flag(many),
                                        upsert: unwrap_flag(upsert),
                                    },
                                ),
                            },
                        },
                    },
                },
            },
        },
    }
}

pub open spec fn spec_delete_envelope(m: Members) -> Result<EnvelopeView, DbErrorView> {
    match spec_validate_fields(m, delete_fields()) {
        Err(e) => Err(e),
        Ok(_) => match spec_optional_string(m, "database"@) {
            Err(e) => Err(e),
            Ok(database) => match spec_required_string(m, "table"@) {
                Err(e) => Err(e),
                Ok(table) => match spec_required_object(m, "key"@) {
                    Err(e) => Err(e),
                    Ok(key) => match spec_optional_bool(m, "many"@) {
                        Err(e) => Err(e),
                        Ok(many) => Ok(EnvelopeView::Delete { database, table, key, many: unwrap_flag(many) }),
                    },
                },
            },
        },
    }
}

/// What an envelope document reads as: an object naming a supported operation
/// whose fields are all allowed and well typed.
pub open spec fn spec_envelope_from_json(v: JValue) -> Result<EnvelopeView, DbErrorView> {
    match v {
        JValue::Object(m) => match spec_required_string(m, "op"@) {
            Err(e) => Err(e),
            Ok(op) => if !spec_is_supported_command(op) {
                Err(DbErrorView::NotSupported(spec_unsupported_command_message(op)))
            } else if op == "scan"@ {
                spec_read_envelope(m, true)
            } else if op == "query"@ {
                spec_read_envelope(m, false)
            } else if op == "put"@ {
                spec_put_envelope(m)
            } else if op == "update"@ {
                spec_update_envelope(m)
            } else {
                spec_delete_envelope(m)
            },
        },
        _ => Err(syntax_error_view("DynamoDB command envelope must be a JSON object"@)),
    }
}

pub open spec fn spec_invalid_json_message(reader_error: Seq<char>) -> Seq<char> {
    "Invalid DynamoDB command envelope JSON: "@ + reader_error
        + ". Expected an object with fields like {\"op\":\"scan\",\"table\":\"...\"}"@
}

/// What a command text reads as: the envelope of the JSON document it holds,
/// or a syntax error carrying the JSON reader's message.
pub open spec fn spec_parse_command_envelope(text: Seq<char>) -> Result<EnvelopeView, DbErrorView> {
    match spec_parse_json(text) {
        Err(reader_error) => Err(syntax_error_view(spec_invalid_json_message(reader_error))),
        Ok(v) => spec_envelope_from_json(v),
    }
}

pub open spec fn envelope_result_view(r: Result<DynamoCommandEnvelope, DbError>) -> Result<EnvelopeView, DbErrorView> {
    match r {
        Ok(e) => Ok(e@),
        Err(e) => Err(e@),
    }
}

fn field_message(head: &str, key: &str, tail: &str) -> (r: DbError)
    ensures
        r@ == query_failed_view(head@ + key@ + tail@),
{
    DbError::query_failed(cat3(head, key, tail))
}

fn required_string(object: &Vec<(String, JsonValue)>, key: &str) -> (r: Result<String, DbError>)
    ensures
        match r {
            Ok(s) => spec_required_string(view_members(object@), key@) == Ok::<Seq<char>, DbErrorView>(s@),
            Err(e) => spec_required_string(view_members(object@), key@) == Err::<Seq<char>, DbErrorView>(e@),
        },
{
    match object_get(object, key) {
        None => Err(field_message("Missing required field '", key, "'")),
        Some(value) => match value.as_str() {
            None => Err(field_message("Field '", key, "' must be a string")),
            Some(s) => {
                let t = trim(s.as_str());
                if t.unicode_len() == 0 {
                    Err(field_message("Field '", key, "' must not be empty"))
                } else {
                    Ok(t)
                }
            },
        },
    }
}

fn optional_string(object: &Vec<(String, JsonValue)>, key: &str) -> (r: Result<Option<String>, DbError>)
    ensures
        match r {
            Ok(s) => spec_optional_string(view_members(object@), key@) == Ok::<Option<Seq<char>>, DbErrorView>(opt_view(s)),
            Err(e) => spec_optional_string(view_members(object@), key@) == Err::<Option<Seq<char>>, DbErrorView>(e@),
        },
{
    match object_get(object, key) {
        None => Ok(None),
        Some(value) => match value.as_str() {
            None => Err(field_message("Field '", key, "' must be a string")),
            Some(s) => {
                let t = trim(s.as_str());
                if t.unicode_len() == 0 {
                    Ok(None)
                } else {
                    Ok(Some(t))
                }
            },
        },
    }
}

fn required_object_value(object: &Vec<(String, JsonValue)>, key: &str) -> (r: Result<JsonValue, DbError>)
    ensures
        match r {
            Ok(v) => spec_required_object(view_members(object@), key@) == Ok::<JValue, DbErrorView>(v@),
            Err(e) => spec_required_object(view_members(object@), key@) == Err::<JValue, DbErrorView>(e@),
        },
{
    match object_get(object, key) {
        None => Err(field_message("Missing required field '", key, "'")),
        Some(value) => {
            if value.is_object() {
                Ok(value.duplicate())
            } else {
                Err(field_message("Field '", key, "' must be a JSON object"))
            }
        },
    }
}

fn optional_object_value(object: &Vec<(String, JsonValue)>, key: &str) -> (r: Result<Option<JsonValue>, DbError>)
    ensures
        match r {
            Ok(v) => spec_optional_object(view_members(object@), key@) == Ok::<Option<JValue>, DbErrorView>(opt_json_view(v)),
            Err(e) => spec_optional_object(view_members(object@), key@) == Err::<Option<JValue>, DbErrorView>(e@),
        },
{
    match object_get(object, key) {
        None => Ok(None),
        Some(value) => {
            if value.is_null() {
                Ok(None)
            } else if value.is_object() {
                Ok(Some(value.duplicate()))
            } else {
                Err(field_message("Field '", key, "' must be a JSON object when provided"))
            }
        },
    }
}

fn optional_bool(object: &Vec<(String, JsonValue)>, key: &str) -> (r: Result<Option<bool>, DbError>)
    ensures
        match r {
            Ok(v) => spec_optional_bool(view_members(object@), key@) == Ok::<Option<bool>, DbErrorView>(v),
            Err(e) => spec_optional_bool(view_members(object@), key@) == Err::<Option<bool>, DbErrorView>(e@),
        },
{
    match object_get(object, key) {
        None => Ok(None),
        Some(value) => match value.as_bool() {
            Some(b) => Ok(Some(b)),
            None => Err(field_message("Field '", key, "' must be a boolean")),
        },
    }
}

fn optional_u64(object: &Vec<(String, JsonValue)>, key: &str) -> (r: Result<Option<u64>, DbError>)
    ensures
        match r {
            Ok(v) => spec_optional_u64(view_members(object@), key@) == Ok::<Option<u64>, DbErrorView>(v),
            Err(e) => spec_optional_u64(view_members(object@), key@) == Err::<Option<u64>, DbErrorView>(e@),
        },
{
    match object_get(object, key) {
        None => Ok(None),
        Some(value) => match value.as_u64() {
            Some(n) => Ok(Some(n)),
            None => Err(field_message("Field '", key, "' must be a positive integer")),
        },
    }
}

fn optional_u32(object: &Vec<(String, JsonValue)>, key: &str) -> (r: Result<Option<u32>, DbError>)
    ensures
        match r {
            Ok(v) => spec_optional_u32(view_members(object@), key@) == Ok::<Option<u32>, DbErrorView>(v),
            Err(e) => spec_optional_u32(view_members(object@), key@) == Err::<Option<u32>, DbErrorView>(e@),
        },
{
    match object_get(object, key) {
        None => Ok(None),
        Some(value) => match value.as_u64() {
            Some(n) => {
                if n <= 0xffff_ffffu64 {
                    Ok(Some(n as u32))
                } else {
                    Err(field_message("Field '", key, "' exceeds maximum supported integer range"))
                }
            },
            None => Err(field_message("Field '", key, "' must be a positive integer")),
        },
    }
}

proof fn lemma_first_disallowed(m: Members, allowed: Seq<Seq<char>>, i: int)
    requires
        0 <= i <= m.len(),
        forall|j: int| 0 <= j < i ==> allowed.contains(#[trigger] m[j].0),
    ensures
        first_disallowed(m, allowed) == first_disallowed(m.subrange(i, m.len() as int), allowed),
    decreases i,
{
    if i > 0 {
        let rest = m.drop_first();
        assert(allowed.contains(m[0].0));
        assert forall|j: int| 0 <= j < i - 1 implies allowed.contains(#[trigger] rest[j].0) by {
            assert(rest[j] == m[j + 1]);
        }
        lemma_first_disallowed(rest, allowed, i - 1);
        assert(rest.subrange(i - 1, rest.len() as int) =~= m.subrange(i, m.len() as int));
    } else {
        assert(m.subrange(0, m.len() as int) =~= m);
    }
}

fn op_label_text(object: &Vec<(String, JsonValue)>) -> (r: String)
    ensures
        r@ == op_label(view_members(object@)),
{
    match object_get(object, "op") {
        Some(value) => match value.as_str() {
            Some(s) => s.clone(),
            None => String::from_str("unknown"),
        },
        None => String::from_str("unknown"),
    }
}

fn validate_allowed_fields(object: &Vec<(String, JsonValue)>, allowed: &Vec<&str>) -> (r: Result<(), DbError>)
    ensures
        match r {
            Ok(_) => spec_validate_fields(view_members(object@), str_views(allowed@)) == Ok::<(), DbErrorView>(()),
            Err(e) => spec_validate_fields(view_members(object@), str_views(allowed@)) == Err::<(), DbErrorView>(e@),
        },
{
    let ghost m = view_members(object@);
    proof {
        lemma_view_members(object@);
    }
    let mut i: usize = 0;
    while i < object.len()
        invariant
            i <= object.len(),
            m == view_members(object@),
            m.len() == object.len(),
            forall|k: int| 0 <= k < object.len() ==> #[trigger] m[k] == (object@[k].0@, object@[k].1@),
            forall|j: int| 0 <= j < i ==> str_views(allowed@).contains(#[trigger] m[j].0),
        decreases object.len() - i,
    {
        let key = &object[i].0;
        if !str_in(key.as_str(), allowed) {
            proof {
                lemma_first_disallowed(m, str_views(allowed@), i as int);
                let rest = m.subrange(i as int, m.len() as int);
                assert(rest[0] == m[i as int]);
            }
            let label = op_label_text(object);
            let mut msg = cat3("Unsupported field '", key.as_str(), "' for DynamoDB '");
            msg.append(label.as_str());
            msg.append("' command envelope");
            return Err(DbError::query_failed(msg));
        }
        i = i + 1;
    }
    proof {
        lemma_first_disallowed(m, str_views(allowed@), m.len() as int);
        assert(m.subrange(m.len() as int, m.len() as int).len() == 0);
    }
    Ok(())
}

fn read_envelope(object: &Vec<(String, JsonValue)>, is_scan: bool) -> (r: Result<DynamoCommandEnvelope, DbError>)
    ensures
        envelope_result_view(r) == spec_read_envelope(view_members(object@), is_scan),
{
    let allowed: Vec<&str> = vec!["op", "database", "table", "filter", "limit", "offset"];
    assert(str_views(allowed@) =~= read_fields());
    match validate_allowed_fields(object, &allowed) {
        Err(e) => return Err(e),
        Ok(_) => {},
    }
    let database = match optional_string(object, "database") {
        Err(e) => return Err(e),
        Ok(v) => v,
    };
    let table = match required_string(object, "table") {
        Err(e) => return Err(e),
        Ok(v) => v,
    };
    let filter = match optional_object_value(object, "filter") {
        Err(e) => return Err(e),
        Ok(v) => v,
    };
    let limit = match optional_u32(object, "limit") {
        Err(e) => return Err(e),
        Ok(v) => v,
    };
    let offset = match optional_u64(object, "offset") {
        Err(e) => return Err(e),
        Ok(v) => v,
    };
    if is_scan {
        Ok(DynamoCommandEnvelope::Scan { database, table, filter, limit, offset })
    } else {
        Ok(DynamoCommandEnvelope::Query { database, table, filter, limit, offset })
    }
}

fn put_envelope(object: &Vec<(String, JsonValue)>) -> (r: Result<DynamoCommandEnvelope, DbError>)
    ensures
        envelope_result_view(r) == spec_put_envelope(view_members(object@)),
{
    let allowed: Vec<&str> = vec!["op", "database", "table", "item"];
    assert(str_views(allowed@) =~= put_fields());
    match validate_allowed_fields(object, &allowed) {
        Err(e) => return Err(e),
        Ok(_) => {},
    }
    let database = match optional_string(object, "database") {
        Err(e) => return Err(e),
        Ok(v) => v,
    };
    let table = match required_string(object, "table") {
        Err(e) => return Err(e),
        Ok(v) => v,
    };
    let item = match required_object_value(object, "item") {
        Err(e) => return Err(e),
        Ok(v) => v,
    };
    Ok(DynamoCommandEnvelope::Put { database, table, item })
}

fn flag_or_false(o: Option<bool>) -> (r: bool)
    ensures
        r == unwrap_flag(o),
{
    match o {
        Some(b) => b,
        None => false,
    }
}

fn update_envelope(object: &Vec<(String, JsonValue)>) -> (r: Result<DynamoCommandEnvelope, DbError>)
    ensures
        envelope_result_view(r) == spec_update_envelope(view_members(object@)),
{
    let allowed: Vec<&str> = vec!["op", "database", "table", "key", "update", "many", "upsert"];
    assert(str_views(allowed@) =~= update_fields());
    match validate_allowed_fields(object, &allowed) {
        Err(e) => return Err(e),
        Ok(_) => {},
    }
    let database = match optional_string(object, "database") {
        Err(e) => return Err(e),
        Ok(v) => v,
    };
    let table = match required_string(object, "table") {
        Err(e) => return Err(e),
        Ok(v) => v,
    };
    let key = match required_object_value(object, "key") {
        Err(e) => return Err(e),
        Ok(v) => v,
    };
    let update = match required_object_value(object, "update") {
        Err(e) => return Err(e),
        Ok(v) => v,
    };
    let many = match optional_bool(object, "many") {
        Err(e) => return Err(e),
        Ok(v) => flag_or_false(v),
    };
    let upsert = match optional_bool(object, "upsert") {
        Err(e) => return Err(e),
        Ok(v) => flag_or_false(v),
    };
    Ok(DynamoCommandEnvelope::Update { database, table, key, update, many, upsert })
}

fn delete_envelope(object: &Vec<(String, JsonValue)>) -> (r: Result<DynamoCommandEnvelope, DbError>)
    ensures
        envelope_result_view(r) == spec_delete_envelope(view_members(object@)),
{
    let allowed: Vec<&str> = vec!["op", "database", "table", "key", "many"];
    assert(str_views(allowed@) =~= delete_fields());
    match validate_allowed_fields(object, &allowed) {
        Err(e) => return Err(e),
        Ok(_) => {},
    }
    let database = match optional_string(object, "database") {
        Err(e) => return Err(e),
        Ok(v) => v,
    };
    let table = match required_string(object, "table") {
        Err(e) => return Err(e),
        Ok(v) => v,
    };
    let key = match required_object_value(object, "key") {
        Err(e) => return Err(e),
        Ok(v) => v,
    };
    let many = match optional_bool(object, "many") {
        Err(e) => return Err(e),
        Ok(v) => flag_or_false(v),
    };
    Ok(DynamoCommandEnvelope::Delete { database, table, key, many })
}

/// Reads an envelope from an already parsed JSON document.
pub fn envelope_from_json(json: &JsonValue) -> (r: Result<DynamoCommandEnvelope, DbError>)
    ensures
        envelope_result_view(r) == spec_envelope_from_json(json@),
{
    let object = match json.as_object() {
        Some(o) => o,
        None => {
            return Err(DbError::syntax_error(String::from_str("DynamoDB command envelope must be a JSON object")));
        },
    };
    let op = match required_string(object, "op") {
        Err(e) => return Err(e),
        Ok(op) => op,
    };
    if !is_supported_command(op.as_str()) {
        return Err(DbError::NotSupported(unsupported_command_message(op.as_str())));
    }
    if str_eq(op.as_str(), "scan") {
        read_envelope(object, true)
    } else if str_eq(op.as_str(), "query") {
        read_envelope(object, false)
    } else if str_eq(op.as_str(), "put") {
        put_envelope(object)
    } else if str_eq(op.as_str(), "update") {
        update_envelope(object)
    } else {
        delete_envelope(object)
    }
}

/// Reads a command text: a JSON object naming a supported operation and its fields.
pub fn parse_command_envelope(input: &str) -> (r: Result<DynamoCommandEnvelope, DbError>)
    ensures
        envelope_result_view(r) == spec_parse_command_envelope(input@),
{
    match parse_json_text(input) {
        Err(reader_error) => {
            let mut msg = cat("Invalid DynamoDB command envelope JSON: ", reader_error.as_str());
            msg.append(". Expected an object with fields like {\"op\":\"scan\",\"table\":\"...\"}");
            Err(DbError::syntax_error(msg))
        },
        Ok(json) => envelope_from_json(&json),
    }
}

/// The flags of an update or delete envelope are the boolean members of the
/// document: `upsert` holds exactly when the document says `"upsert": true`,
/// `many` exactly when it says `"many": true`; an absent member counts as
/// false, and any other value is refused rather than read as a flag.
pub proof fn lemma_envelope_flags_are_the_members(m: Members)
    ensures
        spec_envelope_from_json(JValue::Object(m)) matches Ok(EnvelopeView::Update { many, upsert, .. }) ==> {
            &&& upsert == (member_get(m, "upsert"@) == Some(JValue::Bool(true)))
            &&& many == (member_get(m, "many"@) == Some(JValue::Bool(true)))
            &&& (member_get(m, "upsert"@) is None || member_get(m, "upsert"@) matches Some(JValue::Bool(_)))
            &&& (member_get(m, "many"@) is None || member_get(m, "many"@) matches Some(JValue::Bool(_)))
        },
        spec_envelope_from_json(JValue::Object(m)) matches Ok(EnvelopeView::Delete { many, .. }) ==> {
            &&& many == (member_get(m, "many"@) == Some(JValue::Bool(true)))
            &&& (member_get(m, "many"@) is None || member_get(m, "many"@) matches Some(JValue::Bool(_)))
        },
{
}

} // verus!
