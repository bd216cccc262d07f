//! What the DynamoDB connection decides before it calls the service: query
//! validation, danger detection, how an executed envelope is carried out, and
//! the checks each document operation must pass.
use vstd::prelude::*;
use crate::dynamo::attr::{AttrValue, AttrView, attr_map_of_json, json_members_to_attrs, view_attr_entries};
use crate::dynamo::driver::default_database;
use crate::dynamo::envelope::{DynamoCommandEnvelope, EnvelopeView, envelope_result_view, parse_command_envelope, spec_parse_command_envelope};
use crate::dynamo::generator::{DocumentDelete, DocumentFilter, DocumentInsert, DocumentUpdate, QueryLanguage};
use crate::dynamo::items::{
    Members, extract_key_map_from_filter, build_update_expression_from_json, ensure_item_contains_required_keys,
    spec_key_map, spec_required_keys_check, spec_update_expression, update_parts_view,
};
use crate::dynamo::keys::DynamoTableKeySchema;
use crate::error::{DbError, DbErrorView, object_not_found_view, opt_view, query_failed_view};
use crate::json::{JValue, JsonValue, view_members};
use crate::text::{cat, cat3, contains, spec_ascii_lowercase, spec_contains, spec_starts_with, spec_trim, starts_with, str_eq, to_ascii_lowercase, trim};

verus! {

/// The verdict on a query text before it runs.
#[derive(Debug)]
pub enum ValidationResult {
    Valid,
    WrongLanguage { expected: QueryLanguage, message: String },
}

/// The kinds of statement that change many rows at once.
#[derive(Debug, Clone, Copy, PartialEq, Eq, Structural)]
pub enum DangerousQueryKind {
    DeleteNoWhere,
    UpdateNoWhere,
}

/// Whether a query text, trimmed and lower-cased, starts like an SQL statement.
pub open spec fn looks_like_sql(lower: Seq<char>) -> bool {
    spec_starts_with(lower, "select "@) || spec_starts_with(lower, "insert "@) || spec_starts_with(lower, "update "@)
        || spec_starts_with(lower, "delete "@)
}

/// The query language of DynamoDB command envelopes.
pub open spec fn is_dynamo_language(l: QueryLanguage) -> bool {
    l matches QueryLanguage::Custom(name) && name@ == "DynamoDB"@
}

/// Checks and classifies DynamoDB query texts.
#[derive(Debug)]
pub struct DynamoLanguageService;

impl DynamoLanguageService {
    /// Blank texts and command envelopes are valid; texts that start like SQL
    /// are in the wrong language.
    pub fn validate(&self, query: &str) -> (r: ValidationResult)
        ensures
            (spec_trim(query@).len() > 0 && looks_like_sql(spec_ascii_lowercase(spec_trim(query@)))) ==> (r matches ValidationResult::WrongLanguage { expected, message }
                && is_dynamo_language(expected)
                && message@ == "SQL syntax not supported for DynamoDB. Use DynamoDB command envelopes or mutation tools."@),
            !(spec_trim(query@).len() > 0 && looks_like_sql(spec_ascii_lowercase(spec_trim(query@)))) ==> r is Valid,
    {
        let trimmed = trim(query);
        if trimmed.unicode_len() == 0 {
            return ValidationResult::Valid;
        }
        let lower = to_ascii_lowercase(trimmed.as_str());
        let l = lower.as_str();
        if starts_with(l, "select ") || starts_with(l, "insert ") || starts_with(l, "update ") || starts_with(l, "delete ") {
            return ValidationResult::WrongLanguage {
                expected: QueryLanguage::Custom(String::from_str("DynamoDB")),
                message: String::from_str(
                    "SQL syntax not supported for DynamoDB. Use DynamoDB command envelopes or mutation tools.",
                ),
            };
        }
        ValidationResult::Valid
    }

    /// Delete envelopes are dangerous deletes, update envelopes dangerous updates.
    pub fn detect_dangerous(&self, query: &str) -> (r: Option<DangerousQueryKind>)
        ensures
            ({
                let normalized = spec_ascii_lowercase(spec_trim(query@));
                r == if spec_contains(normalized, "\"op\":\"delete\""@) {
                    Some(DangerousQueryKind::DeleteNoWhere)
                } else if spec_contains(normalized, "\"op\":\"update\""@) {
                    Some(DangerousQueryKind::UpdateNoWhere)
                } else {
                    None
                }
            }),
    {
        let trimmed = trim(query);
        let normalized = to_ascii_lowercase(trimmed.as_str());
        if contains(normalized.as_str(), "\"op\":\"delete\"") {
            return Some(DangerousQueryKind::DeleteNoWhere);
        }
        if contains(normalized.as_str(), "\"op\":\"update\"") {
            return Some(DangerousQueryKind::UpdateNoWhere);
        }
        None
    }
}

/// A query as the user submits it.
#[derive(Debug)]
pub struct QueryRequest {
    pub sql: String,
    pub database: Option<String>,
    pub limit: Option<u32>,
    pub offset: Option<u32>,
}

/// A table in a database.
#[derive(Debug)]
pub struct CollectionRef {
    pub database: String,
    pub name: String,
}

/// A read of one page of a table.
#[derive(Debug)]
pub struct CollectionBrowseRequest {
    pub collection: CollectionRef,
    pub limit: u32,
    pub offset: u64,
    pub filter: Option<JsonValue>,
}

/// What running an envelope comes down to.
#[derive(Debug)]
pub enum ExecutionPlan {
    Browse(CollectionBrowseRequest),
    Insert(DocumentInsert),
    Update(DocumentUpdate),
    Delete(DocumentDelete),
}

/// The database an envelope addresses: its own, else the request's, else the default.
pub open spec fn resolved_database(envelope_db: Option<Seq<char>>, request_db: Option<Seq<char>>) -> Seq<char> {
    match envelope_db {
        Some(d) => d,
        None => match request_db {
            Some(d) => d,
            None => default_database(),
        },
    }
}

/// The page size of a read: the envelope's, else the request's, else one hundred.
pub open spec fn resolved_limit(envelope_limit: Option<u32>, request_limit: Option<u32>) -> u32 {
    match envelope_limit {
        Some(l) => l,
        None => match request_limit {
            Some(l) => l,
            None => 100,
        },
    }
}

/// The offset of a read: the envelope's, else the request's, else zero.
pub open spec fn resolved_offset(envelope_offset: Option<u64>, request_offset: Option<u32>) -> u64 {
    match envelope_offset {
        Some(o) => o,
        None => match request_offset {
            Some(o) => o as u64,
            None => 0,
        },
    }
}

/// Whether a plan carries out an envelope for a request.
pub open spec fn plan_matches(p: ExecutionPlan, e: EnvelopeView, req: QueryRequest) -> bool {
    match e {
        EnvelopeView::Scan { database, table, filter, limit, offset } | EnvelopeView::Query {
            database,
            table,
            filter,
            limit,
            offset,
        } => p matches ExecutionPlan::Browse(b) && b.collection.database@ == resolved_database(
            database,
            opt_view(req.database),
        ) && b.collection.name@ == table && b.limit == resolved_limit(limit, req.limit) && b.offset
            == resolved_offset(offset, req.offset) && crate::dynamo::envelope::opt_json_view(b.filter) == filter,
        EnvelopeView::Put { database, table, item } => p matches ExecutionPlan::Insert(i) && i.collection@ == table
            && opt_view(i.database) == Some(resolved_database(database, opt_view(req.database))) && i.documents.len()
            == 1 && i.documents@[0]@ == item,
        EnvelopeView::Update { database, table, key, update, many, upsert } => p matches ExecutionPlan::Update(u)
            && u.collection@ == table && opt_view(u.database) == Some(resolved_database(database, opt_view(req.database)))
            && u.filter.filter@ == key && u.update@ == update && u.many == many && u.upsert == upsert,
        EnvelopeView::Delete { database, table, key, many } => p matches ExecutionPlan::Delete(d) && d.collection@
            == table && opt_view(d.database) == Some(resolved_database(database, opt_view(req.database)))
            && d.filter.filter@ == key && d.many == many,
    }
}

fn resolve_database(envelope_db: Option<String>, request_db: &Option<String>) -> (r: String)
    ensures
        r@ == resolved_database(opt_view(envelope_db), opt_view(*request_db)),
{
    match envelope_db {
        Some(d) => d,
        None => match request_db {
            Some(d) => d.clone(),
            None => String::from_str("dynamodb"),
        },
    }
}

/// How a submitted query is carried out: its text is read as a command
/// envelope; scans and queries become a page read, puts a single-document
/// insert, updates and deletes the matching document operations, each in the
/// database the envelope or the request names.
pub fn plan_execution(req: &QueryRequest) -> (r: Result<ExecutionPlan, DbError>)
    ensures
        match spec_parse_command_envelope(req.sql@) {
            Ok(e) => r matches Ok(p) && plan_matches(p, e, *req),
            Err(e) => r matches Err(x) && x@ == e,
        },
{
    let envelope = match parse_command_envelope(req.sql.as_str()) {
        Ok(e) => e,
        Err(e) => return Err(e),
    };
    let ghost ev = envelope@;
    match envelope {
        DynamoCommandEnvelope::Scan { database, table, filter, limit, offset }
        | DynamoCommandEnvelope::Query { database, table, filter, limit, offset } => {
            let database = resolve_database(database, &req.database);
            let limit = match limit {
                Some(l) => l,
                None => match req.limit {
                    Some(l) => l,
                    None => 100,
                },
            };
            let offset = match offset {
                Some(o) => o,
                None => match req.offset {
                    Some(o) => o as u64,
                    None => 0,
                },
            };
            Ok(ExecutionPlan::Browse(CollectionBrowseRequest {
                collection: CollectionRef { database, name: table },
                limit,
                offset,
                filter,
            }))
        },
        DynamoCommandEnvelope::Put { database, table, item } => {
            let database = resolve_database(database, &req.database);
            Ok(ExecutionPlan::Insert(DocumentInsert { collection: table, database: Some(database), documents: vec![item] }))
        },
        DynamoCommandEnvelope::Update { database, table, key, update, many, upsert } => {
            let database = resolve_database(database, &req.database);
            Ok(ExecutionPlan::Update(DocumentUpdate {
                collection: table,
                database: Some(database),
                filter: DocumentFilter { filter: key },
                update,
                many,
                upsert,
            }))
        },
        DynamoCommandEnvelope::Delete { database, table, key, many } => {
            let database = resolve_database(database, &req.database);
            Ok(ExecutionPlan::Delete(DocumentDelete {
                collection: table,
                database: Some(database),
                filter: DocumentFilter { filter: key },
                many,
            }))
        },
    }
}

/// The error for a database other than the one DynamoDB exposes.
pub open spec fn unknown_database_error(database: Seq<char>) -> DbErrorView {
    object_not_found_view("Database '"@ + database + "' is not available for DynamoDB"@)
}

/// Checks that an operation addresses the one database DynamoDB exposes.
pub fn check_database(database: &str) -> (r: Result<(), DbError>)
    ensures
        database@ == default_database() ==> r is Ok,
        database@ != default_database() ==> (r matches Err(e) && e@ == unknown_database_error(database@)),
{
    if str_eq(database, "dynamodb") {
        Ok(())
    } else {
        Err(DbError::object_not_found(cat3("Database '", database, "' is not available for DynamoDB")))
    }
}

/// The error for an operation outside the MVP, naming the operation.
pub open spec fn spec_unsupported_operation(operation: Seq<char>, message: Seq<char>) -> DbErrorView {
    DbErrorView::NotSupported(message + " (operation="@ + operation + ")"@)
}

/// The error for an operation outside the MVP.
pub fn unsupported_non_mvp_operation(operation: &str, message: &str) -> (r: DbError)
    ensures
        r@ == spec_unsupported_operation(operation@, message@),
{
    let mut s = cat(message, " (operation=");
    s.append(operation);
    s.append(")");
    DbError::NotSupported(s)
}

/// The database a document operation addresses: its own, else the default.
pub open spec fn operation_database(database: Option<Seq<char>>) -> Seq<char> {
    match database {
        Some(d) => d,
        None => default_database(),
    }
}

fn check_operation_database(database: &Option<String>) -> (r: Result<(), DbError>)
    ensures
        operation_database(opt_view(*database)) == default_database() ==> r is Ok,
        operation_database(opt_view(*database)) != default_database() ==> (r matches Err(e) && e@
            == unknown_database_error(operation_database(opt_view(*database)))),
{
    match database {
        Some(d) => check_database(d.as_str()),
        None => Ok(()),
    }
}

/// The checks an insert must pass before its table is described: exactly one
/// document, in the DynamoDB database.
pub fn check_insert_document(insert: &DocumentInsert) -> (r: Result<(), DbError>)
    ensures
        insert.documents.len() != 1 ==> (r matches Err(e) && e@ == spec_unsupported_operation(
            "insert_many_documents"@,
            "DynamoDB MVP supports only single-item put operations."@,
        )),
        insert.documents.len() == 1 && operation_database(opt_view(insert.database)) != default_database() ==> (r matches Err(e)
            && e@ == unknown_database_error(operation_database(opt_view(insert.database)))),
        insert.documents.len() == 1 && operation_database(opt_view(insert.database)) == default_database() ==> r is Ok,
{
    if insert.documents.len() != 1 {
        return Err(unsupported_non_mvp_operation(
            "insert_many_documents",
            "DynamoDB MVP supports only single-item put operations.",
        ));
    }
    check_operation_database(&insert.database)
}

/// The item a put writes: the inserted document, which must be an object, as
/// an attribute map that holds the table's keys.
pub open spec fn spec_put_item(document: JValue, partition_key: Option<Seq<char>>, sort_key: Option<Seq<char>>) -> Result<Seq<(Seq<char>, AttrView)>, DbErrorView> {
    match document {
        JValue::Object(m) => Ok(attr_map_of_json(m)),
        _ => Err(query_failed_view("DynamoDB item payload must be a JSON object"@)),
    }
}

/// The attribute map a put writes for a checked insert, once the table's keys
/// are known.
pub fn put_item_from_insert(insert: &DocumentInsert, key_schema: &DynamoTableKeySchema) -> (r: Result<Vec<(String, AttrValue)>, DbError>)
    requires
        insert.documents.len() == 1,
    ensures
        match spec_put_item(insert.documents@[0]@, opt_view(key_schema.partition_key), opt_view(key_schema.sort_key)) {
            Err(e) => r matches Err(x) && x@ == e,
            Ok(m) => match r {
                Ok(item) => view_attr_entries(item@) == m && spec_required_keys_check(
                    item@,
                    opt_view(key_schema.partition_key),
                    opt_view(key_schema.sort_key),
                ) is Ok,
                Err(x) => exists|item: Seq<(String, AttrValue)>| view_attr_entries(item) == m && spec_required_keys_check(
                    item,
                    opt_view(key_schema.partition_key),
                    opt_view(key_schema.sort_key),
                ) == Err::<(), DbErrorView>(x@),
            },
        },
{
    let members = match &insert.documents[0] {
        JsonValue::Object(m) => m,
        _ => return Err(DbError::query_failed(String::from_str("DynamoDB item payload must be a JSON object"))),
    };
    let item = json_members_to_attrs(members);
    match ensure_item_contains_required_keys(&item, key_schema) {
        Ok(()) => Ok(item),
        Err(e) => Err(e),
    }
}

/// The checks an update must pass before its table is described: a single
/// item, no upsert, in the DynamoDB database.
pub fn check_update_document(update: &DocumentUpdate) -> (r: Result<(), DbError>)
    ensures
        update.many ==> (r matches Err(e) && e@ == spec_unsupported_operation(
            "update_many_documents"@,
            "DynamoDB MVP does not support many-item update semantics."@,
        )),
        !update.many && update.upsert ==> (r matches Err(e) && e@ == spec_unsupported_operation(
            "upsert_document"@,
            "DynamoDB MVP does not support upsert semantics through document update."@,
        )),
        !update.many && !update.upsert && operation_database(opt_view(update.database)) != default_database() ==> (r matches Err(e)
            && e@ == unknown_database_error(operation_database(opt_view(update.database)))),
        !update.many && !update.upsert && operation_database(opt_view(update.database)) == default_database() ==> r is Ok,
{
    if update.many {
        return Err(unsupported_non_mvp_operation(
            "update_many_documents",
            "DynamoDB MVP does not support many-item update semantics.",
        ));
    }
    if update.upsert {
        return Err(unsupported_non_mvp_operation(
            "upsert_document",
            "DynamoDB MVP does not support upsert semantics through document update.",
        ));
    }
    check_operation_database(&update.database)
}

/// An UpdateItem call: the item's key and the update expression with its placeholders.
#[derive(Debug)]
pub struct UpdateItemRequest {
    pub key: Vec<(String, AttrValue)>,
    pub expression: String,
    pub names: Vec<(String, String)>,
    pub values: Vec<(String, AttrValue)>,
}

/// The UpdateItem call for a checked update once the table's keys are known:
/// the key the filter names, then the expression that sets the update's fields.
pub fn update_item_from_update(update: &DocumentUpdate, key_schema: &DynamoTableKeySchema) -> (r: Result<UpdateItemRequest, DbError>)
    ensures
        match spec_key_map(update.filter.filter@, opt_view(key_schema.partition_key), opt_view(key_schema.sort_key)) {
            Err(e) => r matches Err(x) && x@ == e,
            Ok(key) => match spec_update_expression(update.update@, opt_view(key_schema.partition_key), opt_view(key_schema.sort_key)) {
                Err(e) => r matches Err(x) && x@ == e,
                Ok(parts) => r matches Ok(req) && view_attr_entries(req.key@) == key
                    && update_parts_view((req.expression, req.names, req.values)) == parts,
            },
        },
{
    let key = match extract_key_map_from_filter(&update.filter.filter, key_schema) {
        Ok(k) => k,
        Err(e) => return Err(e),
    };
    let (expression, names, values) = match build_update_expression_from_json(&update.update, key_schema) {
        Ok(p) => p,
        Err(e) => return Err(e),
    };
    Ok(UpdateItemRequest { key, expression, names, values })
}

/// The checks a delete must pass before its table is described: a single
/// item, in the DynamoDB database.
pub fn check_delete_document(delete: &DocumentDelete) -> (r: Result<(), DbError>)
    ensures
        delete.many ==> (r matches Err(e) && e@ == spec_unsupported_operation(
            "delete_many_documents"@,
            "DynamoDB MVP does not support many-item delete semantics."@,
        )),
        !delete.many && operation_database(opt_view(delete.database)) != default_database() ==> (r matches Err(e)
            && e@ == unknown_database_error(operation_database(opt_view(delete.database)))),
        !delete.many && operation_database(opt_view(delete.database)) == default_database() ==> r is Ok,
{
    if delete.many {
        return Err(unsupported_non_mvp_operation(
            "delete_many_documents",
            "DynamoDB MVP does not support many-item delete semantics.",
        ));
    }
    check_operation_database(&delete.database)
}

} // verus!
