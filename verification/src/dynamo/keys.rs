//! Table key schemas: what DescribeTable reports, the key components and table
//! metadata built from it, and the checks that mutations satisfy the key.
use vstd::prelude::*;
use crate::dynamo::attr::{AttrValue, AttrView, attr_of_json, json_to_attr, view_attr_entries};
use crate::error::{DbError, DbErrorView, opt_view, query_failed_view};
use crate::json::{JValue, JsonValue, member_get, object_get, view_members};
use crate::text::{cat, cat3, str_eq, spec_starts_with, starts_with, spec_decimal, u64_to_decimal, spec_join, views, join};

verus! {

/// The role an attribute plays in a table's primary key.
#[derive(Debug, Clone, Copy, PartialEq, Eq, Structural)]
pub enum DynamoKeyRole {
    Partition,
    Sort,
}

/// The key type DescribeTable reports for a key schema element.
#[derive(Debug)]
pub enum KeyType {
    Hash,
    Range,
    /// A key type this client does not know, with its wire name.
    Unknown(String),
}

/// The scalar type DescribeTable reports for a key attribute.
#[derive(Debug)]
pub enum ScalarAttributeType {
    B,
    N,
    S,
    /// A type this client does not know, with its wire name.
    Unknown(String),
}

/// One element of a table's key schema.
#[derive(Debug)]
pub struct KeySchemaElement {
    pub attribute_name: String,
    pub key_type: KeyType,
}

/// The declared type of one attribute.
#[derive(Debug)]
pub struct AttributeDefinition {
    pub attribute_name: String,
    pub attribute_type: ScalarAttributeType,
}

/// What DescribeTable reports of a table's keys.
#[derive(Debug)]
pub struct TableDescription {
    pub key_schema: Vec<KeySchemaElement>,
    pub attribute_definitions: Vec<AttributeDefinition>,
}

/// One attribute of a table's primary key, with its role and scalar type name.
#[derive(Debug)]
pub struct DynamoKeyComponent {
    pub name: String,
    pub role: DynamoKeyRole,
    pub attribute_type: String,
}

pub ghost struct KeyComponentView {
    pub name: Seq<char>,
    pub role: DynamoKeyRole,
    pub attribute_type: Seq<char>,
}

impl DynamoKeyComponent {
    pub open spec fn view(&self) -> KeyComponentView {
        KeyComponentView { name: self.name@, role: self.role, attribute_type: self.attribute_type@ }
    }
}

pub open spec fn view_components(s: Seq<DynamoKeyComponent>) -> Seq<KeyComponentView> {
    s.map_values(|c: DynamoKeyComponent| c@)
}

/// The partition and sort key attribute names of a table.
#[derive(Debug)]
pub struct DynamoTableKeySchema {
    pub partition_key: Option<String>,
    pub sort_key: Option<String>,
}

/// The wire name of a scalar type.
pub open spec fn scalar_type_text(t: ScalarAttributeType) -> Seq<char> {
    match t {
        ScalarAttributeType::B => "B"@,
        ScalarAttributeType::N => "N"@,
        ScalarAttributeType::S => "S"@,
        ScalarAttributeType::Unknown(s) => s@,
    }
}

/// The type name of the last definition of `name`: later definitions replace earlier ones.
pub open spec fn defined_type(defs: Seq<AttributeDefinition>, name: Seq<char>) -> Option<Seq<char>>
    decreases defs.len(),
{
    if defs.len() == 0 {
        None
    } else if defs.last().attribute_name@ == name {
        Some(scalar_type_text(defs.last().attribute_type))
    } else {
        defined_type(defs.drop_last(), name)
    }
}

/// The key role of a key type, if it is one this client knows.
pub open spec fn role_of(t: KeyType) -> Option<DynamoKeyRole> {
    match t {
        KeyType::Hash => Some(DynamoKeyRole::Partition),
        KeyType::Range => Some(DynamoKeyRole::Sort),
        KeyType::Unknown(_) => None,
    }
}

/// The key components of a key schema, in schema order: elements of an unknown
/// key type are left out, and an attribute without a definition is typed `unknown`.
pub open spec fn spec_key_components(keys: Seq<KeySchemaElement>, defs: Seq<AttributeDefinition>) -> Seq<KeyComponentView>
    decreases keys.len(),
{
    if keys.len() == 0 {
        Seq::empty()
    } else {
        let rest = spec_key_components(keys.drop_last(), defs);
        let k = keys.last();
        match role_of(k.key_type) {
            Some(role) => rest.push(KeyComponentView {
                name: k.attribute_name@,
                role,
                attribute_type: match defined_type(defs, k.attribute_name@) {
                    Some(t) => t,
                    None => "unknown"@,
                },
            }),
            None => rest,
        }
    }
}

fn scalar_type_name(t: &ScalarAttributeType) -> (r: String)
    ensures
        r@ == scalar_type_text(*t),
{
    match t {
        ScalarAttributeType::B => String::from_str("B"),
        ScalarAttributeType::N => String::from_str("N"),
        ScalarAttributeType::S => String::from_str("S"),
        ScalarAttributeType::Unknown(s) => s.clone(),
    }
}

fn lookup_defined_type(defs: &Vec<AttributeDefinition>, name: &str) -> (r: Option<String>)
    ensures
        opt_view(r) == defined_type(defs@, name@),
{
    let mut i = defs.len();
    assert(defs@.subrange(0, defs@.len() as int) =~= defs@);
    while i > 0
        invariant
            i <= defs.len(),
            defined_type(defs@, name@) == defined_type(defs@.subrange(0, i as int), name@),
        decreases i,
    {
        let ghost pre = defs@.subrange(0, i as int);
        assert(pre.drop_last() =~= defs@.subrange(0, i - 1));
        if str_eq(defs[i - 1].attribute_name.as_str(), name) {
            return Some(scalar_type_name(&defs[i - 1].attribute_type));
        }
        i = i - 1;
    }
    None
}

/// The key components of a table, built from its key schema and attribute definitions.
pub fn extract_key_components(
    key_schema: &Vec<KeySchemaElement>,
    attribute_definitions: &Vec<AttributeDefinition>,
) -> (r: Vec<DynamoKeyComponent>)
    ensures
        view_components(r@) == spec_key_components(key_schema@, attribute_definitions@),
{
    let mut out: Vec<DynamoKeyComponent> = Vec::new();
    let mut i: usize = 0;
    while i < key_schema.len()
        invariant
            i <= key_schema.len(),
            view_components(out@) == spec_key_components(key_schema@.subrange(0, i as int), attribute_definitions@),
        decreases key_schema.len() - i,
    {
        let ghost before = out@;
        let ghost cur = key_schema@.subrange(0, i + 1);
        assert(cur.drop_last() =~= key_schema@.subrange(0, i as int));
        let key = &key_schema[i];
        let role = match &key.key_type {
            KeyType::Hash => Some(DynamoKeyRole::Partition),
            KeyType::Range => Some(DynamoKeyRole::Sort),
            KeyType::Unknown(_) => None,
        };
        match role {
            Some(role) => {
                let attribute_type = match lookup_defined_type(attribute_definitions, key.attribute_name.as_str()) {
                    Some(t) => t,
                    None => String::from_str("unknown"),
                };
                out.push(DynamoKeyComponent { name: key.attribute_name.clone(), role, attribute_type });
                assert(view_components(out@) =~= view_components(before).push(out@.last()@));
            },
            None => {},
        }
        i = i + 1;
    }
    assert(key_schema@.subrange(0, key_schema@.len() as int) =~= key_schema@);
    out
}

/// The name of the first component with the given role.
pub open spec fn first_with_role(s: Seq<KeyComponentView>, role: DynamoKeyRole) -> Option<Seq<char>>
    decreases s.len(),
{
    if s.len() == 0 {
        None
    } else if s[0].role == role {
        Some(s[0].name)
    } else {
        first_with_role(s.drop_first(), role)
    }
}

fn find_role(components: &Vec<DynamoKeyComponent>, role: DynamoKeyRole) -> (r: Option<String>)
    ensures
        opt_view(r) == first_with_role(view_components(components@), role),
{
    let ghost all = view_components(components@);
    assert(all.subrange(0, all.len() as int) =~= all);
    let mut i: usize = 0;
    while i < components.len()
        invariant
            i <= components.len(),
            all == view_components(components@),
            first_with_role(all, role) == first_with_role(all.subrange(i as int, all.len() as int), role),
        decreases components.len() - i,
    {
        let ghost rest = all.subrange(i as int, all.len() as int);
        assert(rest.drop_first() =~= all.subrange(i + 1, all.len() as int));
        assert(rest[0] == components@[i as int]@);
        if components[i].role == role {
            return Some(components[i].name.clone());
        }
        i = i + 1;
    }
    assert(all.subrange(i as int, all.len() as int).len() == 0);
    None
}

/// The key schema of a table: the first partition component and the first sort component.
pub fn key_schema_from_components(components: &Vec<DynamoKeyComponent>) -> (r: DynamoTableKeySchema)
    ensures
        opt_view(r.partition_key) == first_with_role(view_components(components@), DynamoKeyRole::Partition),
        opt_view(r.sort_key) == first_with_role(view_components(components@), DynamoKeyRole::Sort),
{
    DynamoTableKeySchema {
        partition_key: find_role(components, DynamoKeyRole::Partition),
        sort_key: find_role(components, DynamoKeyRole::Sort),
    }
}

/// A field of a document collection, as schema discovery reports it.
#[derive(Debug)]
pub struct FieldInfo {
    pub name: String,
    pub common_type: String,
    /// The share of documents holding the field, in percent.
    pub occurrence_percent: Option<u8>,
    pub nested_fields: Option<Vec<FieldInfo>>,
}

/// The direction of an index key.
#[derive(Debug, Clone, Copy, PartialEq, Eq, Structural)]
pub enum IndexDirection {
    Ascending,
    Descending,
}

/// An index of a document collection.
#[derive(Debug)]
pub struct CollectionIndexInfo {
    pub name: String,
    pub keys: Vec<(String, IndexDirection)>,
    pub is_unique: bool,
    pub is_sparse: bool,
    pub expire_after_seconds: Option<u64>,
}

/// The indexes of a table.
#[derive(Debug)]
pub enum IndexData {
    Document(Vec<CollectionIndexInfo>),
}

/// What the driver reports of one table.
#[derive(Debug)]
pub struct TableInfo {
    pub name: String,
    pub schema: Option<String>,
    pub indexes: Option<IndexData>,
    pub sample_fields: Option<Vec<FieldInfo>>,
}

/// The label of a key role in field type names.
pub open spec fn role_label(role: DynamoKeyRole) -> Seq<char> {
    match role {
        DynamoKeyRole::Partition => "partition_key"@,
        DynamoKeyRole::Sort => "sort_key"@,
    }
}

/// The type a key component is reported with: its scalar type, then its role in brackets.
pub open spec fn key_field_type(c: KeyComponentView) -> Seq<char> {
    c.attribute_type + " ("@ + role_label(c.role) + ")"@
}

/// `fields` are the sample fields reported for the key components `comps`:
/// none for a table without key components, else one field per component, in
/// order, named after it, typed by `key_field_type`, present in every item.
pub open spec fn key_fields_describe(fields: Option<Vec<FieldInfo>>, comps: Seq<KeyComponentView>) -> bool {
    match fields {
        None => comps.len() == 0,
        Some(f) => {
            &&& comps.len() > 0
            &&& f.len() == comps.len()
            &&& forall|i: int| 0 <= i < comps.len() ==> {
                &&& (#[trigger] f@[i]).name@ == comps[i].name
                &&& f@[i].common_type@ == key_field_type(comps[i])
                &&& f@[i].occurrence_percent == Some(100u8)
                &&& f@[i].nested_fields is None
            }
        },
    }
}

/// `indexes` are the indexes reported for the key components `comps`: none for
/// a table without key components, else the one unique, non-sparse `PRIMARY`
/// index over the components in order, all ascending.
pub open spec fn key_indexes_describe(indexes: Option<IndexData>, comps: Seq<KeyComponentView>) -> bool {
    match indexes {
        None => comps.len() == 0,
        Some(IndexData::Document(v)) => {
            &&& comps.len() > 0
            &&& v.len() == 1
            &&& v@[0].name@ == "PRIMARY"@
            &&& v@[0].is_unique
            &&& !v@[0].is_sparse
            &&& v@[0].expire_after_seconds is None
            &&& v@[0].keys.len() == comps.len()
            &&& forall|i: int| 0 <= i < comps.len() ==> {
                &&& (#[trigger] v@[0].keys@[i]).0@ == comps[i].name
                &&& v@[0].keys@[i].1 == IndexDirection::Ascending
            }
        },
    }
}

fn role_label_text(role: DynamoKeyRole) -> (r: &'static str)
    ensures
        r@ == role_label(role),
{
    match role {
        DynamoKeyRole::Partition => "partition_key",
        DynamoKeyRole::Sort => "sort_key",
    }
}

/// The sample fields that describe a table's key components.
pub fn key_components_to_fields(key_components: &Vec<DynamoKeyComponent>) -> (r: Option<Vec<FieldInfo>>)
    ensures
        key_fields_describe(r, view_components(key_components@)),
{
    if key_components.len() == 0 {
        return None;
    }
    let mut fields: Vec<FieldInfo> = Vec::new();
    let mut i: usize = 0;
    while i < key_components.len()
        invariant
            i <= key_components.len(),
            fields.len() == i,
            forall|j: int| 0 <= j < i ==> {
                &&& (#[trigger] fields@[j]).name@ == key_components@[j].name@
                &&& fields@[j].common_type@ == key_field_type(key_components@[j]@)
                &&& fields@[j].occurrence_percent == Some(100u8)
                &&& fields@[j].nested_fields is None
            },
        decreases key_components.len() - i,
    {
        let c = &key_components[i];
        let mut common_type = cat(c.attribute_type.as_str(), " (");
        common_type.append(role_label_text(c.role));
        common_type.append(")");
        fields.push(FieldInfo {
            name: c.name.clone(),
            common_type,
            occurrence_percent: Some(100u8),
            nested_fields: None,
        });
        i = i + 1;
    }
    Some(fields)
}

/// The primary index that describes a table's key components.
pub fn key_components_to_indexes(key_components: &Vec<DynamoKeyComponent>) -> (r: Option<IndexData>)
    ensures
        key_indexes_describe(r, view_components(key_components@)),
{
    if key_components.len() == 0 {
        return None;
    }
    let mut keys: Vec<(String, IndexDirection)> = Vec::new();
    let mut i: usize = 0;
    while i < key_components.len()
        invariant
            i <= key_components.len(),
            keys.len() == i,
            forall|j: int| 0 <= j < i ==> {
                &&& (#[trigger] keys@[j]).0@ == key_components@[j].name@
                &&& keys@[j].1 == IndexDirection::Ascending
            },
        decreases key_components.len() - i,
    {
        keys.push((key_components[i].name.clone(), IndexDirection::Ascending));
        i = i + 1;
    }
    Some(IndexData::Document(vec![CollectionIndexInfo {
        name: String::from_str("PRIMARY"),
        keys,
        is_unique: true,
        is_sparse: false,
        expire_after_seconds: None,
    }]))
}

/// The table information reported for a described table: its name, the
/// database as schema, and the fields and index of its key components.
pub fn build_table_info_from_description(
    table_name: &str,
    database: &str,
    description: &TableDescription,
) -> (r: TableInfo)
    ensures
        r.name@ == table_name@,
        opt_view(r.schema) == Some(database@),
        key_fields_describe(
            r.sample_fields,
            spec_key_components(description.key_schema@, description.attribute_definitions@),
        ),
        key_indexes_describe(
            r.indexes,
            spec_key_components(description.key_schema@, description.attribute_definitions@),
        ),
{
    let key_components = extract_key_components(&description.key_schema, &description.attribute_definitions);
    let sample_fields = key_components_to_fields(&key_components);
    let indexes = key_components_to_indexes(&key_components);
    TableInfo {
        name: String::from_str(table_name),
        schema: Some(String::from_str(database)),
        indexes,
        sample_fields,
    }
}

} // verus!
