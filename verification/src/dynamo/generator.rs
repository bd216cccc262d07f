//! Turns document mutations into DynamoDB command envelope texts.
use vstd::prelude::*;
use crate::error::opt_view;
use crate::json::{json_text, spec_json_text, JValue, JsonValue};
use crate::text::cat3;

verus! {

/// A filter selecting documents.
#[derive(Debug)]
pub struct DocumentFilter {
    pub filter: JsonValue,
}

/// Insert documents into a collection.
#[derive(Debug)]
pub struct DocumentInsert {
    pub collection: String,
    pub database: Option<String>,
    pub documents: Vec<JsonValue>,
}

/// Update documents matched by a filter.
#[derive(Debug)]
pub struct DocumentUpdate {
    pub collection: String,
    pub database: Option<String>,
    pub filter: DocumentFilter,
    pub update: JsonValue,
    pub many: bool,
    pub upsert: bool,
}

/// Delete documents matched by a filter.
#[derive(Debug)]
pub struct DocumentDelete {
    pub collection: String,
    pub database: Option<String>,
    pub filter: DocumentFilter,
    pub many: bool,
}

/// The families of mutations a driver may generate text for.
#[derive(Debug, Clone, Copy, PartialEq, Eq)]
pub enum MutationCategory {
    Relational,
    Document,
    KeyValue,
}

/// A mutation the UI asks a driver to express as a query text.
#[derive(Debug)]
pub enum MutationRequest {
    DocumentInsert(DocumentInsert),
    DocumentUpdate(DocumentUpdate),
    DocumentDelete(DocumentDelete),
    /// A mutation of another family (rows, keys), which DynamoDB does not generate.
    Other(MutationCategory),
}

/// The language a generated query is written in.
#[derive(Debug)]
pub enum QueryLanguage {
    Sql,
    Custom(String),
}

/// A generated query text and its language.
#[derive(Debug)]
pub struct GeneratedQuery {
    pub language: QueryLanguage,
    pub text: String,
}

pub open spec fn bool_text(b: bool) -> Seq<char> {
    if b {
        "true"@
    } else {
        "false"@
    }
}

fn bool_to_text(b: bool) -> (r: String)
    ensures
        r@ == bool_text(b),
{
    if b {
        String::from_str("true")
    } else {
        String::from_str("false")
    }
}

pub open spec fn spec_insert_text(collection: Seq<char>, item: JValue) -> Seq<char> {
    "{\"op\":\"put\",\"table\":\""@ + collection + "\",\"item\":"@ + spec_json_text(item) + "}"@
}

pub open spec fn spec_update_text(collection: Seq<char>, key: JValue, change: JValue, many: bool) -> Seq<char> {
    "{\"op\":\"update\",\"table\":\""@ + collection + "\",\"key\":"@ + spec_json_text(key)
        + ",\"update\":"@ + spec_json_text(change) + ",\"many\":"@ + bool_text(many) + "}"@
}

pub open spec fn spec_delete_text(collection: Seq<char>, key: JValue, many: bool) -> Seq<char> {
    "{\"op\":\"delete\",\"table\":\""@ + collection + "\",\"key\":"@ + spec_json_text(key)
        + ",\"many\":"@ + bool_text(many) + "}"@
}

/// A put envelope for a single-document insert; `None` unless exactly one document.
pub fn generate_insert(insert: &DocumentInsert) -> (r: Option<String>)
    ensures
        insert.documents.len() != 1 ==> r is None,
        insert.documents.len() == 1 ==> (r matches Some(t) && t@ == spec_insert_text(
            insert.collection@,
            insert.documents@[0]@,
        )),
{
    if insert.documents.len() != 1 {
        return None;
    }
    let item = json_text(&insert.documents[0]);
    let mut s = cat3("{\"op\":\"put\",\"table\":\"", insert.collection.as_str(), "\",\"item\":");
    s.append(item.as_str());
    s.append("}");
    Some(s)
}

/// An update envelope keyed by the update's filter.
pub fn generate_update(update: &DocumentUpdate) -> (r: Option<String>)
    ensures
        (r matches Some(t) && t@ == spec_update_text(
            update.collection@,
            update.filter.filter@,
            update.update@,
            update.many,
        )),
{
    let key = json_text(&update.filter.filter);
    let change = json_text(&update.update);
    let mut s = cat3("{\"op\":\"update\",\"table\":\"", update.collection.as_str(), "\",\"key\":");
    s.append(key.as_str());
    s.append(",\"update\":");
    s.append(change.as_str());
    s.append(",\"many\":");
    s.append(bool_to_text(update.many).as_str());
    s.append("}");
    Some(s)
}

/// A delete envelope keyed by the delete's filter.
pub fn generate_delete(delete: &DocumentDelete) -> (r: Option<String>)
    ensures
        (r matches Some(t) && t@ == spec_delete_text(delete.collection@, delete.filter.filter@, delete.many)),
{
    let key = json_text(&delete.filter.filter);
    let mut s = cat3("{\"op\":\"delete\",\"table\":\"", delete.collection.as_str(), "\",\"key\":");
    s.append(key.as_str());
    s.append(",\"many\":");
    s.append(bool_to_text(delete.many).as_str());
    s.append("}");
    Some(s)
}

/// `r` is a query in the DynamoDB language whose text is `text`.
pub open spec fn is_dynamo_query(r: Option<GeneratedQuery>, text: Seq<char>) -> bool {
    match r {
        Some(q) => q.text@ == text && match q.language {
            QueryLanguage::Custom(l) => l@ == "DynamoDB"@,
            QueryLanguage::Sql => false,
        },
        None => false,
    }
}

/// Generates DynamoDB command envelopes for document mutations.
pub struct DynamoQueryGenerator;

impl DynamoQueryGenerator {
    /// The mutation families this generator writes: documents only.
    pub fn supported_categories(&self) -> (r: Vec<MutationCategory>)
        ensures
            r@ == seq![MutationCategory::Document],
    {
        vec![MutationCategory::Document]
    }

    /// The envelope text for a document mutation, tagged as the DynamoDB language;
    /// `None` for other mutation families and for multi-document inserts.
    pub fn generate_mutation(&self, mutation: &MutationRequest) -> (r: Option<GeneratedQuery>)
        ensures
            match mutation {
                MutationRequest::DocumentInsert(i) => if i.documents.len() == 1 {
                    is_dynamo_query(r, spec_insert_text(i.collection@, i.documents@[0]@))
                } else {
                    r is None
                },
                MutationRequest::DocumentUpdate(u) => is_dynamo_query(
                    r,
                    spec_update_text(u.collection@, u.filter.filter@, u.update@, u.many),
                ),
                MutationRequest::DocumentDelete(d) => is_dynamo_query(
                    r,
                    spec_delete_text(d.collection@, d.filter.filter@, d.many),
                ),
                MutationRequest::Other(_) => r is None,
            },
    {
        let text = match mutation {
            MutationRequest::DocumentInsert(insert) => match generate_insert(insert) {
                Some(t) => t,
                None => return None,
            },
            MutationRequest::DocumentUpdate(update) => match generate_update(update) {
                Some(t) => t,
                None => return None,
            },
            MutationRequest::DocumentDelete(delete) => match generate_delete(delete) {
                Some(t) => t,
                None => return None,
            },
            MutationRequest::Other(_) => return None,
        };
        Some(GeneratedQuery { language: QueryLanguage::Custom(String::from_str("DynamoDB")), text })
    }
}

} // verus!
