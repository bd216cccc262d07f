//! Item-level request building: key checks for puts, key maps for updates and
//! deletes, update expressions, and the choice between Query and Scan.
use vstd::prelude::*;
use crate::dynamo::attr::{AttrValue, AttrView, attr_of_json, json_to_attr, lemma_view_attr_entries, view_attr_entries};
use crate::dynamo::keys::DynamoTableKeySchema;
use crate::error::{DbError, DbErrorView, opt_view, query_failed_view};
use crate::json::{JValue, JsonValue, member_get, object_get, view_members};
use crate::text::{cat3, join, spec_decimal, spec_join, spec_starts_with, starts_with, str_eq, u64_to_decimal, views};

verus! {

/// The members of a JSON object's view.
pub type Members = Seq<(Seq<char>, JValue)>;

/// Whether some entry of an attribute map is named `name`.
pub open spec fn has_entry(entries: Seq<(String, AttrValue)>, name: Seq<char>) -> bool {
    exists|i: int| 0 <= i < entries.len() && entries[i].0@ == name
}

/// Whether an attribute map has an entry named `name`.
pub fn entries_have_name(entries: &Vec<(String, AttrValue)>, name: &str) -> (r: bool)
    ensures
        r == has_entry(entries@, name@),
{
    let mut i: usize = 0;
    while i < entries.len()
        invariant
            i <= entries.len(),
            forall|j: int| 0 <= j < i ==> entries@[j].0@ != name@,
        decreases entries.len() - i,
    {
        if str_eq(entries[i].0.as_str(), name) {
            return true;
        }
        i = i + 1;
    }
    false
}

/// The outcome of checking that a put item holds the table's key attributes.
pub open spec fn spec_required_keys_check(
    item: Seq<(String, AttrValue)>,
    partition_key: Option<Seq<char>>,
    sort_key: Option<Seq<char>>,
) -> Result<(), DbErrorView> {
    if partition_key is Some && !has_entry(item, partition_key->0) {
        Err(query_failed_view("Missing required partition key '"@ + partition_key->0 + "' for PutItem"@))
    } else if sort_key is Some && !has_entry(item, sort_key->0) {
        Err(query_failed_view("Missing required sort key '"@ + sort_key->0 + "' for PutItem"@))
    } else {
        Ok(())
    }
}

/// Checks that a put item holds the partition key and, if the table has one, the sort key.
pub fn ensure_item_contains_required_keys(
    item: &Vec<(String, AttrValue)>,
    key_schema: &DynamoTableKeySchema,
) -> (r: Result<(), DbError>)
    ensures
        match r {
            Ok(()) => spec_required_keys_check(item@, opt_view(key_schema.partition_key), opt_view(key_schema.sort_key)) is Ok,
            Err(e) => spec_required_keys_check(item@, opt_view(key_schema.partition_key), opt_view(key_schema.sort_key))
                == Err::<(), DbErrorView>(e@),
        },
{
    if let Some(partition_key) = &key_schema.partition_key {
        if !entries_have_name(item, partition_key.as_str()) {
            return Err(DbError::query_failed(cat3("Missing required partition key '", partition_key.as_str(), "' for PutItem")));
        }
    }
    if let Some(sort_key) = &key_schema.sort_key {
        if !entries_have_name(item, sort_key.as_str()) {
            return Err(DbError::query_failed(cat3("Missing required sort key '", sort_key.as_str(), "' for PutItem")));
        }
    }
    Ok(())
}

/// The key map a mutation filter names: the partition key's value and, if the
/// table has a sort key, the sort key's value, each as an attribute value. Both
/// must be present in the filter, which must be an object.
pub open spec fn spec_key_map(
    filter: JValue,
    partition_key: Option<Seq<char>>,
    sort_key: Option<Seq<char>>,
) -> Result<Seq<(Seq<char>, AttrView)>, DbErrorView> {
    match filter {
        JValue::Object(m) => match partition_key {
            None => Err(query_failed_view(
                "Table metadata is missing a partition key; cannot resolve item identity"@,
            )),
            Some(p) => match member_get(m, p) {
                None => Err(query_failed_view("DynamoDB mutation requires partition key '"@ + p + "' in filter"@)),
                Some(pv) => match sort_key {
                    None => Ok(seq![(p, attr_of_json(pv))]),
                    Some(s) => match member_get(m, s) {
                        None => Err(query_failed_view("DynamoDB mutation requires sort key '"@ + s + "' in filter"@)),
                        Some(sv) => if s == p {
                            Ok(seq![(p, attr_of_json(sv))])
                        } else {
                            Ok(seq![(p, attr_of_json(pv)), (s, attr_of_json(sv))])
                        },
                    },
                },
            },
        },
        _ => Err(query_failed_view("DynamoDB key filter must be a JSON object"@)),
    }
}

/// The key map that identifies the item a mutation filter selects.
pub fn extract_key_map_from_filter(
    filter: &JsonValue,
    key_schema: &DynamoTableKeySchema,
) -> (r: Result<Vec<(String, AttrValue)>, DbError>)
    ensures
        match r {
            Ok(m) => spec_key_map(filter@, opt_view(key_schema.partition_key), opt_view(key_schema.sort_key))
                == Ok::<Seq<(Seq<char>, AttrView)>, DbErrorView>(view_attr_entries(m@)),
            Err(e) => spec_key_map(filter@, opt_view(key_schema.partition_key), opt_view(key_schema.sort_key))
                == Err::<Seq<(Seq<char>, AttrView)>, DbErrorView>(e@),
        },
{
    let members = match filter {
        JsonValue::Object(m) => m,
        _ => return Err(DbError::query_failed(String::from_str("DynamoDB key filter must be a JSON object"))),
    };
    let partition_key = match &key_schema.partition_key {
        Some(p) => p,
        None => return Err(DbError::query_failed(String::from_str(
            "Table metadata is missing a partition key; cannot resolve item identity",
        ))),
    };
    let partition_value = match object_get(members, partition_key.as_str()) {
        Some(v) => v,
        None => return Err(DbError::query_failed(cat3(
            "DynamoDB mutation requires partition key '",
            partition_key.as_str(),
            "' in filter",
        ))),
    };
    let mut key_map: Vec<(String, AttrValue)> = Vec::new();
    key_map.push((partition_key.clone(), json_to_attr(partition_value)));
    if let Some(sort_key) = &key_schema.sort_key {
        let sort_value = match object_get(members, sort_key.as_str()) {
            Some(v) => v,
            None => return Err(DbError::query_failed(cat3(
                "DynamoDB mutation requires sort key '",
                sort_key.as_str(),
                "' in filter",
            ))),
        };
        let converted = json_to_attr(sort_value);
        if str_eq(sort_key.as_str(), partition_key.as_str()) {
            key_map.set(0, (partition_key.clone(), converted));
        } else {
            key_map.push((sort_key.clone(), converted));
        }
    }
    proof {
        lemma_view_attr_entries(key_map@);
    }
    assert(view_attr_entries(key_map@) =~= spec_key_map(filter@, opt_view(key_schema.partition_key), opt_view(key_schema.sort_key))->Ok_0);
    Ok(key_map)
}

/// The placeholder that names the `i`-th updated field.
pub open spec fn name_token(i: nat) -> Seq<char> {
    "#u"@ + spec_decimal(i)
}

/// The placeholder that carries the `i`-th updated value.
pub open spec fn value_token(i: nat) -> Seq<char> {
    ":v"@ + spec_decimal(i)
}

/// Why a field cannot be updated, if it cannot: operators other than `$set`
/// are not supported, and key attributes cannot change.
pub open spec fn update_field_error(
    field: Seq<char>,
    partition_key: Option<Seq<char>>,
    sort_key: Option<Seq<char>>,
) -> Option<DbErrorView> {
    if spec_starts_with(field, "$"@) {
        Some(DbErrorView::NotSupported(
            "DynamoDB MVP supports only plain field updates and optional '$set'; operator '"@ + field
                + "' is not supported"@,
        ))
    } else if partition_key == Some(field) || sort_key == Some(field) {
        Some(query_failed_view(
            "DynamoDB key field '"@ + field + "' cannot be updated; provide it in the filter instead"@,
        ))
    } else {
        None
    }
}

/// The error of the first field, from position `i` on, that cannot be updated.
pub open spec fn first_update_error(
    fields: Members,
    i: int,
    partition_key: Option<Seq<char>>,
    sort_key: Option<Seq<char>>,
) -> Option<DbErrorView>
    decreases fields.len() - i,
{
    if i < 0 || i >= fields.len() {
        None
    } else {
        match update_field_error(fields[i].0, partition_key, sort_key) {
            Some(e) => Some(e),
            None => first_update_error(fields, i + 1, partition_key, sort_key),
        }
    }
}

/// The names map of an update: each placeholder to its field.
pub open spec fn update_names(fields: Members) -> Seq<(Seq<char>, Seq<char>)> {
    Seq::new(fields.len(), |i: int| (name_token(i as nat), fields[i].0))
}

/// The values map of an update: each placeholder to its new value.
pub open spec fn update_values(fields: Members) -> Seq<(Seq<char>, AttrView)> {
    Seq::new(fields.len(), |i: int| (value_token(i as nat), attr_of_json(fields[i].1)))
}

/// The assignments of an update, one per field, in order.
pub open spec fn update_assignments(fields: Members) -> Seq<Seq<char>> {
    Seq::new(fields.len(), |i: int| name_token(i as nat) + " = "@ + value_token(i as nat))
}

/// The update expression that sets every field.
pub open spec fn update_expression(fields: Members) -> Seq<char> {
    "SET "@ + spec_join(update_assignments(fields), ", "@)
}

/// The fields an update payload sets: those under `$set` when present, else
/// the payload's own members.
pub open spec fn spec_update_fields(update: JValue) -> Result<Members, DbErrorView> {
    match update {
        JValue::Object(root) => match member_get(root, "$set"@) {
            Some(JValue::Object(set)) => Ok(set),
            Some(_) => Err(query_failed_view("$set must be a JSON object"@)),
            None => Ok(root),
        },
        _ => Err(query_failed_view("DynamoDB update payload must be a JSON object"@)),
    }
}

/// The outcome of building an update expression: the expression, the names
/// map and the values map, or why the payload cannot be applied.
pub open spec fn spec_update_expression(
    update: JValue,
    partition_key: Option<Seq<char>>,
    sort_key: Option<Seq<char>>,
) -> Result<(Seq<char>, Seq<(Seq<char>, Seq<char>)>, Seq<(Seq<char>, AttrView)>), DbErrorView> {
    match spec_update_fields(update) {
        Err(e) => Err(e),
        Ok(fields) => if fields.len() == 0 {
            Err(query_failed_view("DynamoDB update payload must include at least one field"@))
        } else {
            match first_update_error(fields, 0, partition_key, sort_key) {
                Some(e) => Err(e),
                None => Ok((update_expression(fields), update_names(fields), update_values(fields))),
            }
        },
    }
}

/// The views of a list of string pairs.
pub open spec fn view_pairs(s: Seq<(String, String)>) -> Seq<(Seq<char>, Seq<char>)> {
    s.map_values(|p: (String, String)| (p.0@, p.1@))
}

/// The view of an update expression's parts.
pub open spec fn update_parts_view(
    p: (String, Vec<(String, String)>, Vec<(String, AttrValue)>),
) -> (Seq<char>, Seq<(Seq<char>, Seq<char>)>, Seq<(Seq<char>, AttrView)>) {
    (p.0@, view_pairs(p.1@), view_attr_entries(p.2@))
}

fn token(prefix: &str, i: usize) -> (r: String)
    ensures
        r@ == prefix@ + spec_decimal(i as nat),
{
    let digits = u64_to_decimal(i as u64);
    let mut s = String::from_str(prefix);
    s.append(digits.as_str());
    s
}

fn field_error(field: &str, key_schema: &DynamoTableKeySchema) -> (r: Option<DbError>)
    ensures
        match r {
            Some(e) => update_field_error(field@, opt_view(key_schema.partition_key), opt_view(key_schema.sort_key))
                == Some(e@),
            None => update_field_error(field@, opt_view(key_schema.partition_key), opt_view(key_schema.sort_key))
                is None,
        },
{
    if starts_with(field, "$") {
        return Some(DbError::NotSupported(cat3(
            "DynamoDB MVP supports only plain field updates and optional '$set'; operator '",
            field,
            "' is not supported",
        )));
    }
    let is_partition = match &key_schema.partition_key {
        Some(p) => str_eq(p.as_str(), field),
        None => false,
    };
    let is_sort = match &key_schema.sort_key {
        Some(s) => str_eq(s.as_str(), field),
        None => false,
    };
    if is_partition || is_sort {
        return Some(DbError::query_failed(cat3(
            "DynamoDB key field '",
            field,
            "' cannot be updated; provide it in the filter instead",
        )));
    }
    None
}

/// Builds the update expression, names map and values map that set each field
/// of an update payload (or of its `$set` object).
pub fn build_update_expression_from_json(
    update: &JsonValue,
    key_schema: &DynamoTableKeySchema,
) -> (r: Result<(String, Vec<(String, String)>, Vec<(String, AttrValue)>), DbError>)
    ensures
        match r {
            Ok(p) => spec_update_expression(update@, opt_view(key_schema.partition_key), opt_view(key_schema.sort_key))
                == Ok::<(Seq<char>, Seq<(Seq<char>, Seq<char>)>, Seq<(Seq<char>, AttrView)>), DbErrorView>(
                    update_parts_view(p),
                ),
            Err(e) => spec_update_expression(update@, opt_view(key_schema.partition_key), opt_view(key_schema.sort_key))
                == Err::<(Seq<char>, Seq<(Seq<char>, Seq<char>)>, Seq<(Seq<char>, AttrView)>), DbErrorView>(e@),
        },
{
    let root = match update {
        JsonValue::Object(m) => m,
        _ => return Err(DbError::query_failed(String::from_str("DynamoDB update payload must be a JSON object"))),
    };
    let set_object = match object_get(root, "$set") {
        Some(explicit) => match explicit {
            JsonValue::Object(m) => m,
            _ => return Err(DbError::query_failed(String::from_str("$set must be a JSON object"))),
        },
        None => root,
    };
    proof {
        crate::json::lemma_view_members(set_object@);
    }
    let ghost fields = view_members(set_object@);
    assert(spec_update_fields(update@) == Ok::<Members, DbErrorView>(fields));
    if set_object.len() == 0 {
        return Err(DbError::query_failed(String::from_str(
            "DynamoDB update payload must include at least one field",
        )));
    }
    let ghost pk = opt_view(key_schema.partition_key);
    let ghost sk = opt_view(key_schema.sort_key);
    let mut names: Vec<(String, String)> = Vec::new();
    let mut values: Vec<(String, AttrValue)> = Vec::new();
    let mut assignments: Vec<String> = Vec::new();
    let mut i: usize = 0;
    while i < set_object.len()
        invariant
            i <= set_object.len(),
            spec_update_fields(update@) == Ok::<Members, DbErrorView>(fields),
            fields.len() > 0,
            pk == opt_view(key_schema.partition_key),
            sk == opt_view(key_schema.sort_key),
            fields == view_members(set_object@),
            fields.len() == set_object.len(),
            forall|k: int| 0 <= k < set_object.len() ==> #[trigger] fields[k] == (set_object@[k].0@, set_object@[k].1@),
            first_update_error(fields, 0, pk, sk) == first_update_error(fields, i as int, pk, sk),
            view_pairs(names@) =~= update_names(fields).subrange(0, i as int),
            view_attr_entries(values@) =~= update_values(fields).subrange(0, i as int),
            views(assignments@) =~= update_assignments(fields).subrange(0, i as int),
        decreases set_object.len() - i,
    {
        let field = &set_object[i].0;
        assert(fields[i as int].0 == field@);
        match field_error(field.as_str(), key_schema) {
            Some(e) => {
                return Err(e);
            },
            None => {},
        }
        let name_tok = token("#u", i);
        let value_tok = token(":v", i);
        let ghost vbefore = values@;
        let ghost nbefore = names@;
        let ghost abefore = assignments@;
        names.push((name_tok.clone(), field.clone()));
        values.push((value_tok.clone(), json_to_attr(&set_object[i].1)));
        let assignment = cat3(name_tok.as_str(), " = ", value_tok.as_str());
        let ghost assigned = assignment@;
        assignments.push(assignment);
        proof {
            assert(view_pairs(names@) =~= view_pairs(nbefore).push((name_tok@, field@)));
            assert(views(assignments@) =~= views(abefore).push(assigned));
            let un = update_names(fields);
            let ua = update_assignments(fields);
            assert(un.subrange(0, i + 1) =~= un.subrange(0, i as int).push(un[i as int]));
            assert(ua.subrange(0, i + 1) =~= ua.subrange(0, i as int).push(ua[i as int]));
            lemma_view_attr_entries(values@);
            lemma_view_attr_entries(vbefore);
            assert(fields[i as int].1 == set_object@[i as int].1@);
        }
        i = i + 1;
    }
    let expression_tail = join(&assignments, ", ");
    let mut expression = String::from_str("SET ");
    expression.append(expression_tail.as_str());
    assert(update_names(fields).subrange(0, fields.len() as int) =~= update_names(fields));
    assert(update_values(fields).subrange(0, fields.len() as int) =~= update_values(fields));
    assert(update_assignments(fields).subrange(0, fields.len() as int) =~= update_assignments(fields));
    Ok((expression, names, values))
}

/// How items are read: a full scan, or a key query.
#[derive(Debug)]
pub enum DynamoReadStrategy {
    Scan,
    Query(DynamoQueryPlan),
}

/// A key query: its key condition and the placeholders it uses.
#[derive(Debug)]
pub struct DynamoQueryPlan {
    pub key_condition_expression: String,
    pub expression_attribute_names: Vec<(String, String)>,
    pub expression_attribute_values: Vec<(String, AttrValue)>,
}

pub ghost enum ReadStrategyView {
    Scan,
    Query {
        expression: Seq<char>,
        names: Seq<(Seq<char>, Seq<char>)>,
        values: Seq<(Seq<char>, AttrView)>,
    },
}

impl DynamoReadStrategy {
    pub open spec fn view(&self) -> ReadStrategyView {
        match self {
            DynamoReadStrategy::Scan => ReadStrategyView::Scan,
            DynamoReadStrategy::Query(p) => ReadStrategyView::Query {
                expression: p.key_condition_expression@,
                names: view_pairs(p.expression_attribute_names@),
                values: view_attr_entries(p.expression_attribute_values@),
            },
        }
    }
}

pub open spec fn opt_json_view(o: Option<&JsonValue>) -> Option<JValue> {
    match o {
        Some(v) => Some(v@),
        None => None,
    }
}

/// The read strategy for a filter: a key query when the table has a partition
/// key and the filter is an object naming it (with the sort key too when the
/// filter names that as well), else a scan.
pub open spec fn spec_read_strategy(
    filter: Option<JValue>,
    partition_key: Option<Seq<char>>,
    sort_key: Option<Seq<char>>,
) -> ReadStrategyView {
    match (partition_key, filter) {
        (Some(p), Some(JValue::Object(m))) => match member_get(m, p) {
            None => ReadStrategyView::Scan,
            Some(pv) => {
                let sort = match sort_key {
                    Some(s) => match member_get(m, s) {
                        Some(sv) => Some((s, sv)),
                        None => None,
                    },
                    None => None,
                };
                match sort {
                    None => ReadStrategyView::Query {
                        expression: "#pk = :pk"@,
                        names: seq![("#pk"@, p)],
                        values: seq![(":pk"@, attr_of_json(pv))],
                    },
                    Some((s, sv)) => ReadStrategyView::Query {
                        expression: "#pk = :pk"@ + " AND #sk = :sk"@,
                        names: seq![("#pk"@, p), ("#sk"@, s)],
                        values: seq![(":pk"@, attr_of_json(pv)), (":sk"@, attr_of_json(sv))],
                    },
                }
            },
        },
        _ => ReadStrategyView::Scan,
    }
}

/// Chooses between a key query and a scan for a read with an optional filter.
/// Building the strategy does not fail.
pub fn decide_read_strategy(
    filter: Option<&JsonValue>,
    key_schema: &DynamoTableKeySchema,
) -> (r: Result<DynamoReadStrategy, DbError>)
    ensures
        r matches Ok(s) && s@ == spec_read_strategy(
            opt_json_view(filter),
            opt_view(key_schema.partition_key),
            opt_view(key_schema.sort_key),
        ),
{
    let partition_key = match &key_schema.partition_key {
        Some(p) => p,
        None => return Ok(DynamoReadStrategy::Scan),
    };
    let members = match filter {
        Some(JsonValue::Object(m)) => m,
        _ => return Ok(DynamoReadStrategy::Scan),
    };
    let partition_value = match object_get(members, partition_key.as_str()) {
        Some(v) => v,
        None => return Ok(DynamoReadStrategy::Scan),
    };
    let mut names: Vec<(String, String)> = Vec::new();
    let mut values: Vec<(String, AttrValue)> = Vec::new();
    names.push((String::from_str("#pk"), partition_key.clone()));
    values.push((String::from_str(":pk"), json_to_attr(partition_value)));
    let mut expression = String::from_str("#pk = :pk");
    if let Some(sort_key) = &key_schema.sort_key {
        if let Some(sort_value) = object_get(members, sort_key.as_str()) {
            names.push((String::from_str("#sk"), sort_key.clone()));
            values.push((String::from_str(":sk"), json_to_attr(sort_value)));
            expression.append(" AND #sk = :sk");
        }
    }
    let plan = DynamoQueryPlan {
        key_condition_expression: expression,
        expression_attribute_names: names,
        expression_attribute_values: values,
    };
    let r = DynamoReadStrategy::Query(plan);
    proof {
        lemma_view_attr_entries(r->Query_0.expression_attribute_values@);
    }
    assert(view_pairs(r->Query_0.expression_attribute_names@) =~= spec_read_strategy(
        opt_json_view(filter), opt_view(key_schema.partition_key), opt_view(key_schema.sort_key))->names);
    assert(view_attr_entries(r->Query_0.expression_attribute_values@) =~= spec_read_strategy(
        opt_json_view(filter), opt_view(key_schema.partition_key), opt_view(key_schema.sort_key))->values);
    Ok(r)
}

} // verus!
