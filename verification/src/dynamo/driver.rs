//! The DynamoDB driver: what it declares about itself, its connection form,
//! its profile settings, and the table listing and paging it does.
use vstd::prelude::*;
use crate::dynamo::generator::QueryLanguage;
use crate::error::{DbError, DbErrorView, opt_view};
use crate::hooks::map_get;
use crate::profile::{DbConfig, DbKind, FormValues};
use crate::strmap::StrMap;
use crate::text::{
    lemma_seq_lt_asymmetric, lemma_seq_lt_total, lemma_seq_lt_transitive, seq_lt, str_lt, views,
    cat3, spec_ascii_lowercase, spec_trim, str_eq, str_in, str_views, to_ascii_lowercase, trim, trim_end, trim_start,
};

verus! {

/// The one database a DynamoDB connection exposes.
pub open spec fn default_database() -> Seq<char> {
    "dynamodb"@
}

/// The flows the DynamoDB MVP supports.
pub open spec fn supported_flows() -> Seq<Seq<char>> {
    seq![
        "connect"@, "test_connection"@, "list_tables"@, "table_details"@, "browse_collection_scan"@,
        "browse_collection_query_when_key_predicate_is_valid"@, "count_collection"@,
        "insert_document_single_item_put"@, "update_document_single_item_update"@,
        "delete_document_single_item_delete"@, "execute_scan"@, "execute_query"@, "execute_put"@,
        "execute_update"@, "execute_delete"@,
    ]
}

/// The flows outside the DynamoDB MVP.
pub open spec fn unsupported_flows() -> Seq<Seq<char>> {
    seq![
        "multi_item_transactions"@, "advanced_partiql_workflows"@, "streams_changefeeds"@, "dax"@,
        "global_tables_controls"@, "bulk_many_update"@, "bulk_many_delete"@,
        "specialized_dynamodb_ui_panels"@,
    ]
}

/// Whether `flow` is one the MVP supports.
pub fn is_supported_mvp_flow(flow: &str) -> (r: bool)
    ensures
        r == supported_flows().contains(flow@),
{
    let flows: Vec<&str> = vec![
        "connect", "test_connection", "list_tables", "table_details", "browse_collection_scan",
        "browse_collection_query_when_key_predicate_is_valid", "count_collection",
        "insert_document_single_item_put", "update_document_single_item_update",
        "delete_document_single_item_delete", "execute_scan", "execute_query", "execute_put",
        "execute_update", "execute_delete",
    ];
    assert(str_views(flows@) =~= supported_flows());
    str_in(flow, &flows)
}

/// Whether `flow` is one the MVP leaves out.
pub fn is_unsupported_mvp_flow(flow: &str) -> (r: bool)
    ensures
        r == unsupported_flows().contains(flow@),
{
    let flows: Vec<&str> = vec![
        "multi_item_transactions", "advanced_partiql_workflows", "streams_changefeeds", "dax",
        "global_tables_controls", "bulk_many_update", "bulk_many_delete",
        "specialized_dynamodb_ui_panels",
    ];
    assert(str_views(flows@) =~= unsupported_flows());
    str_in(flow, &flows)
}

/// No flow is both supported by the MVP and left out of it.
pub proof fn lemma_flows_disjoint(flow: Seq<char>)
    ensures
        !(supported_flows().contains(flow) && unsupported_flows().contains(flow)),
{
    if supported_flows().contains(flow) && unsupported_flows().contains(flow) {
    reveal_strlit("connect");
    reveal_strlit("test_connection");
    reveal_strlit("list_tables");
    reveal_strlit("table_details");
    reveal_strlit("browse_collection_scan");
    reveal_strlit("browse_collection_query_when_key_predicate_is_valid");
    reveal_strlit("count_collection");
    reveal_strlit("insert_document_single_item_put");
    reveal_strlit("update_document_single_item_update");
    reveal_strlit("delete_document_single_item_delete");
    reveal_strlit("execute_scan");
    reveal_strlit("execute_query");
    reveal_strlit("execute_put");
    reveal_strlit("execute_update");
    reveal_strlit("execute_delete");
    reveal_strlit("multi_item_transactions");
    reveal_strlit("advanced_partiql_workflows");
    reveal_strlit("streams_changefeeds");
    reveal_strlit("dax");
    reveal_strlit("global_tables_controls");
    reveal_strlit("bulk_many_update");
    reveal_strlit("bulk_many_delete");
    reveal_strlit("specialized_dynamodb_ui_panels");
        let i = choose|i: int| 0 <= i < supported_flows().len() && supported_flows()[i] == flow;
        let j = choose|j: int| 0 <= j < unsupported_flows().len() && unsupported_flows()[j] == flow;
        let a = supported_flows()[i];
        let b = unsupported_flows()[j];
        assert(a[0] == b[0] && a[1] == b[1]);
        assert(false);
    }
}

/// The message for a flow outside the MVP.
pub fn unsupported_mvp_message(flow: &str) -> (r: String)
    ensures
        r@ == "Operation '"@ + flow@
            + "' is not supported in DynamoDB MVP. This workflow is outside the current MVP scope."@,
{
    cat3(
        "Operation '",
        flow,
        "' is not supported in DynamoDB MVP. This workflow is outside the current MVP scope.",
    )
}

/// The broad family of a database engine.
#[derive(Debug, Clone, Copy, PartialEq, Eq, Structural)]
pub enum DatabaseCategory {
    Relational,
    Document,
    KeyValue,
}

/// The icon a driver is shown with.
#[derive(Debug, Clone, Copy, PartialEq, Eq, Structural)]
pub enum Icon {
    Postgres,
    Sqlite,
    Mysql,
    Mongodb,
    Redis,
    Dynamodb,
}

/// A set of driver capabilities, one bit each.
#[derive(Debug, Clone, Copy, PartialEq, Eq, Structural)]
pub struct DriverCapabilities {
    pub bits: u64,
}

impl DriverCapabilities {
    /// The driver authenticates users.
    pub fn authentication() -> (r: DriverCapabilities)
        ensures
            r.bits == 1,
    {
        DriverCapabilities { bits: 1 }
    }

    /// The driver pages through results.
    pub fn pagination() -> (r: DriverCapabilities)
        ensures
            r.bits == 2,
    {
        DriverCapabilities { bits: 2 }
    }

    /// The driver filters reads.
    pub fn filtering() -> (r: DriverCapabilities)
        ensures
            r.bits == 4,
    {
        DriverCapabilities { bits: 4 }
    }

    /// The driver inserts records.
    pub fn insert() -> (r: DriverCapabilities)
        ensures
            r.bits == 8,
    {
        DriverCapabilities { bits: 8 }
    }

    /// The driver updates records.
    pub fn update() -> (r: DriverCapabilities)
        ensures
            r.bits == 16,
    {
        DriverCapabilities { bits: 16 }
    }

    /// The driver deletes records.
    pub fn delete() -> (r: DriverCapabilities)
        ensures
            r.bits == 32,
    {
        DriverCapabilities { bits: 32 }
    }

    /// Whether every capability of `other` is in this set.
    pub fn contains(&self, other: DriverCapabilities) -> (r: bool)
        ensures
            r == (self.bits & other.bits == other.bits),
    {
        self.bits & other.bits == other.bits
    }
}

/// What a driver declares about itself.
#[derive(Debug)]
pub struct DriverMetadata {
    pub id: String,
    pub display_name: String,
    pub description: String,
    pub category: DatabaseCategory,
    pub query_language: QueryLanguage,
    pub capabilities: DriverCapabilities,
    pub default_port: Option<u16>,
    pub uri_scheme: String,
    pub icon: Icon,
}

/// The DynamoDB driver.
#[derive(Debug)]
pub struct DynamoDriver;

impl DynamoDriver {
    pub fn new() -> (r: DynamoDriver)
        ensures
            r == DynamoDriver,
    {
        DynamoDriver
    }

    /// The engine this driver connects to.
    pub fn kind(&self) -> (r: DbKind)
        ensures
            r == DbKind::DynamoDB,
    {
        DbKind::DynamoDB
    }

    /// The key the driver is registered under.
    pub fn driver_key(&self) -> (r: String)
        ensures
            r@ == "builtin:dynamodb"@,
    {
        String::from_str("builtin:dynamodb")
    }

    /// What the driver declares about itself: a document database queried
    /// with command envelopes, able to authenticate, page, filter, insert,
    /// update and delete, with no default port.
    pub fn metadata(&self) -> (r: DriverMetadata)
        ensures
            r.id@ == "dynamodb"@,
            r.display_name@ == "DynamoDB"@,
            r.description@ == "AWS managed NoSQL key-value and document database"@,
            r.category == DatabaseCategory::Document,
            r.query_language matches QueryLanguage::Custom(l) && l@ == "DynamoDB"@,
            r.capabilities.bits == (1u64 | 2u64 | 4u64 | 8u64 | 16u64 | 32u64),
            r.default_port is None,
            r.uri_scheme@ == "dynamodb"@,
            r.icon == Icon::Dynamodb,
    {
        let bits = DriverCapabilities::authentication().bits | DriverCapabilities::pagination().bits
            | DriverCapabilities::filtering().bits | DriverCapabilities::insert().bits
            | DriverCapabilities::update().bits | DriverCapabilities::delete().bits;
        DriverMetadata {
            id: String::from_str("dynamodb"),
            display_name: String::from_str("DynamoDB"),
            description: String::from_str("AWS managed NoSQL key-value and document database"),
            category: DatabaseCategory::Document,
            query_language: QueryLanguage::Custom(String::from_str("DynamoDB")),
            capabilities: DriverCapabilities { bits },
            default_port: None,
            uri_scheme: String::from_str("dynamodb"),
            icon: Icon::Dynamodb,
        }
    }
}

/// A form field's value, trimmed, when it is present and not blank.
pub open spec fn trimmed_field(values: Map<Seq<char>, Seq<char>>, key: Seq<char>) -> Option<Seq<char>> {
    match map_get(values, key) {
        Some(v) => if spec_trim(v).len() > 0 {
            Some(spec_trim(v))
        } else {
            None
        },
        None => None,
    }
}

/// A value, trimmed, when it is present and not blank.
pub open spec fn trimmed_opt(v: Option<Seq<char>>) -> Option<Seq<char>> {
    match v {
        Some(s) => if spec_trim(s).len() > 0 {
            Some(spec_trim(s))
        } else {
            None
        },
        None => None,
    }
}

fn trimmed_value(value: Option<&String>) -> (r: Option<String>)
    ensures
        opt_view(r) == trimmed_opt(match value {
            Some(s) => Some(s@),
            None => None::<Seq<char>>,
        }),
{
    match value {
        Some(s) => {
            let t = trim(s.as_str());
            if t.unicode_len() > 0 {
                Some(t)
            } else {
                None
            }
        },
        None => None,
    }
}

/// Whether a configuration is a DynamoDB one with these trimmed fields.
pub open spec fn is_dynamo_config(
    c: DbConfig,
    region: Seq<char>,
    profile: Option<Seq<char>>,
    endpoint: Option<Seq<char>>,
    table: Option<Seq<char>>,
) -> bool {
    match c {
        DbConfig::DynamoDB { region: r, profile: p, endpoint: e, table: t } => {
            &&& r@ == region
            &&& opt_view(p) == profile
            &&& opt_view(e) == endpoint
            &&& opt_view(t) == table
        },
        _ => false,
    }
}

impl DynamoDriver {
    /// The configuration a connection form describes: the region is required;
    /// profile, endpoint and table are optional; all are trimmed and blank
    /// values count as absent.
    pub fn build_config(&self, values: &FormValues) -> (r: Result<DbConfig, DbError>)
        ensures
            trimmed_field(values@, "region"@) is None ==> (r matches Err(e) && e@ == DbErrorView::InvalidProfile(
                "AWS Region is required"@,
            )),
            trimmed_field(values@, "region"@) matches Some(region) ==> (r matches Ok(c) && is_dynamo_config(
                c,
                region,
                trimmed_field(values@, "profile"@),
                trimmed_field(values@, "endpoint"@),
                trimmed_field(values@, "table"@),
            )),
    {
        let region = match trimmed_value(values.get("region")) {
            Some(r) => r,
            None => return Err(DbError::InvalidProfile(String::from_str("AWS Region is required"))),
        };
        let profile = trimmed_value(values.get("profile"));
        let endpoint = trimmed_value(values.get("endpoint"));
        let table = trimmed_value(values.get("table"));
        Ok(DbConfig::DynamoDB { region, profile, endpoint, table })
    }

    /// The form values that describe a configuration: region, profile,
    /// endpoint and table, absent ones as empty text; nothing for a
    /// configuration of another engine.
    pub fn extract_values(&self, config: &DbConfig) -> (r: FormValues)
        ensures
            match config {
                DbConfig::DynamoDB { region, profile, endpoint, table } => r@ == dynamo_form(
                    region@,
                    opt_view(*profile),
                    opt_view(*endpoint),
                    opt_view(*table),
                ),
                _ => r@ == Map::<Seq<char>, Seq<char>>::empty(),
            },
    {
        let mut values = StrMap::new();
        match config {
            DbConfig::DynamoDB { region, profile, endpoint, table } => {
                values.insert(String::from_str("region"), region.clone());
                values.insert(String::from_str("profile"), value_or_empty(profile));
                values.insert(String::from_str("endpoint"), value_or_empty(endpoint));
                values.insert(String::from_str("table"), value_or_empty(table));
                values
            },
            _ => values,
        }
    }
}

/// A field that a form keeps as it is: trimmed already and not blank.
pub open spec fn kept_field(v: Seq<char>) -> bool {
    spec_trim(v) == v && v.len() > 0
}

/// The form values `extract_values` gives for a DynamoDB configuration with
/// these fields.
pub open spec fn dynamo_form(
    region: Seq<char>,
    profile: Option<Seq<char>>,
    endpoint: Option<Seq<char>>,
    table: Option<Seq<char>>,
) -> Map<Seq<char>, Seq<char>> {
    Map::<Seq<char>, Seq<char>>::empty()
        .insert("region"@, region)
        .insert("profile"@, or_empty(profile))
        .insert("endpoint"@, or_empty(endpoint))
        .insert("table"@, or_empty(table))
}

proof fn lemma_optional_field_kept(v: Option<Seq<char>>)
    requires
        v matches Some(x) ==> kept_field(x),
    ensures
        trimmed_opt(Some(or_empty(v))) == v,
{
    match v {
        Some(x) => {},
        None => {
            let e = Seq::<char>::empty();
            assert(trim_start(e) == e);
            assert(trim_end(e) == e);
        },
    }
}

/// Building a configuration from the form values of a DynamoDB configuration
/// gives back its fields, when they are trimmed already and not blank: the
/// region is found, and each optional field is the one the configuration had.
pub proof fn lemma_build_config_undoes_extract_values(
    region: Seq<char>,
    profile: Option<Seq<char>>,
    endpoint: Option<Seq<char>>,
    table: Option<Seq<char>>,
)
    requires
        kept_field(region),
        profile matches Some(x) ==> kept_field(x),
        endpoint matches Some(x) ==> kept_field(x),
        table matches Some(x) ==> kept_field(x),
    ensures
        trimmed_field(dynamo_form(region, profile, endpoint, table), "region"@) == Some(region),
        trimmed_field(dynamo_form(region, profile, endpoint, table), "profile"@) == profile,
        trimmed_field(dynamo_form(region, profile, endpoint, table), "endpoint"@) == endpoint,
        trimmed_field(dynamo_form(region, profile, endpoint, table), "table"@) == table,
{
    reveal_strlit("region");
    reveal_strlit("profile");
    reveal_strlit("endpoint");
    reveal_strlit("table");
    assert("region"@ != "profile"@) by { assert("region"@[0] != "profile"@[0]); }
    assert("region"@ != "endpoint"@) by { assert("region"@[0] != "endpoint"@[0]); }
    assert("region"@ != "table"@) by { assert("region"@[0] != "table"@[0]); }
    assert("profile"@ != "endpoint"@) by { assert("profile"@[0] != "endpoint"@[0]); }
    assert("profile"@ != "table"@) by { assert("profile"@[0] != "table"@[0]); }
    assert("endpoint"@ != "table"@) by { assert("endpoint"@[0] != "table"@[0]); }
    let m = dynamo_form(region, profile, endpoint, table);
    assert(m["region"@] == region);
    assert(m["profile"@] == or_empty(profile));
    assert(m["endpoint"@] == or_empty(endpoint));
    assert(m["table"@] == or_empty(table));
    lemma_optional_field_kept(profile);
    lemma_optional_field_kept(endpoint);
    lemma_optional_field_kept(table);
}

/// A value, or empty text when absent.
pub open spec fn or_empty(v: Option<Seq<char>>) -> Seq<char> {
    match v {
        Some(s) => s,
        None => Seq::empty(),
    }
}

fn value_or_empty(v: &Option<String>) -> (r: String)
    ensures
        r@ == or_empty(opt_view(*v)),
{
    match v {
        Some(s) => s.clone(),
        None => String::new(),
    }
}

/// The settings a DynamoDB connection uses.
#[derive(Debug)]
pub struct DynamoProfileConfig {
    pub region: String,
    pub profile: Option<String>,
    pub endpoint: Option<String>,
    pub table: Option<String>,
}

/// The settings of a profile's configuration: it must be a DynamoDB one with
/// a region that is not blank; all fields are trimmed and blank optional
/// fields count as absent.
pub fn profile_config(config: &DbConfig) -> (r: Result<DynamoProfileConfig, DbError>)
    ensures
        match config {
            DbConfig::DynamoDB { region, profile, endpoint, table } => if spec_trim(region@).len() == 0 {
                r matches Err(e) && e@ == DbErrorView::InvalidProfile("AWS Region is required"@)
            } else {
                r matches Ok(c) && c.region@ == spec_trim(region@) && opt_view(c.profile) == trimmed_opt(
                    opt_view(*profile),
                ) && opt_view(c.endpoint) == trimmed_opt(opt_view(*endpoint)) && opt_view(c.table)
                    == trimmed_opt(opt_view(*table))
            },
            _ => r matches Err(e) && e@ == DbErrorView::InvalidProfile("Expected DynamoDB configuration"@),
        },
{
    match config {
        DbConfig::DynamoDB { region, profile, endpoint, table } => {
            let trimmed_region = trim(region.as_str());
            if trimmed_region.unicode_len() == 0 {
                return Err(DbError::InvalidProfile(String::from_str("AWS Region is required")));
            }
            Ok(DynamoProfileConfig {
                region: trimmed_region,
                profile: trimmed_value(profile.as_ref()),
                endpoint: trimmed_value(endpoint.as_ref()),
                table: trimmed_value(table.as_ref()),
            })
        },
        _ => Err(DbError::InvalidProfile(String::from_str("Expected DynamoDB configuration"))),
    }
}

/// The text before the first `c`, or all of it.
pub open spec fn before_char(s: Seq<char>, c: char) -> Seq<char>
    decreases s.len(),
{
    if s.len() == 0 {
        s
    } else if s[0] == c {
        Seq::empty()
    } else {
        seq![s[0]] + before_char(s.drop_first(), c)
    }
}

/// An endpoint without its `http://` or `https://` scheme.
pub open spec fn strip_scheme(s: Seq<char>) -> Seq<char> {
    if crate::text::spec_starts_with(s, "http://"@) {
        s.subrange("http://"@.len() as int, s.len() as int)
    } else if crate::text::spec_starts_with(s, "https://"@) {
        s.subrange("https://"@.len() as int, s.len() as int)
    } else {
        s
    }
}

/// The host an endpoint names: what precedes the first `/` of the endpoint
/// without its scheme, up to the first `:`.
pub open spec fn endpoint_host(endpoint: Seq<char>) -> Seq<char> {
    before_char(before_char(strip_scheme(endpoint), '/'), ':')
}

/// Whether an endpoint points at this machine: its host is `localhost` in any
/// ASCII case, or one of the loopback addresses `127.0.0.1`, `::1`, `[::1]`.
pub open spec fn spec_endpoint_looks_local(endpoint: Seq<char>) -> bool {
    let host = endpoint_host(endpoint);
    spec_ascii_lowercase(host) == spec_ascii_lowercase("localhost"@) || host == "127.0.0.1"@ || host
        == "::1"@ || host == "[::1]"@
}

fn text_before(s: &Vec<char>, from: usize, to: usize, c: char) -> (r: usize)
    requires
        from <= to <= s.len(),
    ensures
        from <= r <= to,
        s@.subrange(from as int, r as int) == before_char(s@.subrange(from as int, to as int), c),
{
    let mut i = from;
    while i < to
        invariant
            from <= i <= to <= s.len(),
            before_char(s@.subrange(from as int, to as int), c) == s@.subrange(from as int, i as int)
                + before_char(s@.subrange(i as int, to as int), c),
        decreases to - i,
    {
        let ghost rest = s@.subrange(i as int, to as int);
        if s[i] == c {
            assert(before_char(rest, c) =~= Seq::<char>::empty());
            assert(s@.subrange(from as int, i as int) + Seq::<char>::empty() =~= s@.subrange(from as int, i as int));
            return i;
        }
        assert(rest.drop_first() =~= s@.subrange(i + 1, to as int));
        assert(s@.subrange(from as int, i as int) + (seq![s@[i as int]] + before_char(rest.drop_first(), c))
            =~= s@.subrange(from as int, i + 1) + before_char(rest.drop_first(), c));
        i = i + 1;
    }
    assert(before_char(s@.subrange(i as int, to as int), c) =~= Seq::<char>::empty());
    assert(s@.subrange(from as int, i as int) + Seq::<char>::empty() =~= s@.subrange(from as int, i as int));
    i
}

/// Whether an endpoint points at this machine (DynamoDB Local and the like).
pub fn endpoint_looks_local(endpoint: &str) -> (r: bool)
    ensures
        r == spec_endpoint_looks_local(endpoint@),
{
    let chars = crate::text::chars_of(endpoint);
    let start: usize = if crate::text::starts_with(endpoint, "http://") {
        "http://".unicode_len()
    } else if crate::text::starts_with(endpoint, "https://") {
        "https://".unicode_len()
    } else {
        0
    };
    assert(chars@.subrange(start as int, chars@.len() as int) == strip_scheme(endpoint@)) by {
        if start == 0 {
            assert(chars@.subrange(0, chars@.len() as int) =~= chars@);
        }
    }
    let path_end = text_before(&chars, start, chars.len(), '/');
    let host_end = text_before(&chars, start, path_end, ':');
    let host_chars = crate::text::sub_chars(&chars, start, host_end);
    let host = crate::text::string_from_chars(host_chars.as_slice());
    let lower = to_ascii_lowercase(host.as_str());
    let localhost = to_ascii_lowercase("localhost");
    str_eq(lower.as_str(), localhost.as_str()) || str_eq(host.as_str(), "127.0.0.1") || str_eq(host.as_str(), "::1")
        || str_eq(host.as_str(), "[::1]")
}

/// Whether a client should use the fixed local-testing credentials: the
/// endpoint points at this machine, no AWS profile is named, and the
/// environment holds no AWS credentials.
pub fn uses_local_test_credentials(config: &DynamoProfileConfig, has_environment_credentials: bool) -> (r: bool)
    ensures
        r == (config.endpoint matches Some(e) && spec_endpoint_looks_local(e@) && config.profile is None
            && !has_environment_credentials),
{
    match &config.endpoint {
        Some(e) => endpoint_looks_local(e.as_str()) && config.profile.is_none() && !has_environment_credentials,
        None => false,
    }
}

/// Every name sorts strictly before every later one.
pub open spec fn strictly_sorted(s: Seq<Seq<char>>) -> bool {
    forall|i: int, j: int| 0 <= i < j < s.len() ==> seq_lt(#[trigger] s[i], #[trigger] s[j])
}

proof fn lemma_insert_sorted(s: Seq<Seq<char>>, p: int, x: Seq<char>)
    requires
        strictly_sorted(s),
        0 <= p <= s.len(),
        forall|k: int| 0 <= k < p ==> seq_lt(#[trigger] s[k], x),
        p < s.len() ==> seq_lt(x, s[p]),
    ensures
        strictly_sorted(s.insert(p, x)),
{
    let t = s.insert(p, x);
    assert forall|a: int, b: int| 0 <= a < b < t.len() implies seq_lt(#[trigger] t[a], #[trigger] t[b]) by {
        if b < p {
            assert(t[a] == s[a] && t[b] == s[b]);
        } else if b == p {
            assert(t[a] == s[a] && t[b] == x);
        } else if a < p {
            assert(t[a] == s[a] && t[b] == s[b - 1]);
        } else if a == p {
            assert(t[a] == x && t[b] == s[b - 1]);
            if b - 1 > p {
                lemma_seq_lt_transitive(x, s[p], s[b - 1]);
            }
        } else {
            assert(t[a] == s[a - 1] && t[b] == s[b - 1]);
        }
    }
}

/// The table names as listed to the user: sorted, each name once.
pub fn normalize_table_names(table_names: Vec<String>) -> (r: Result<Vec<String>, DbError>)
    ensures
        r matches Ok(v) && strictly_sorted(views(v@)) && forall|x: Seq<char>| #[trigger] views(v@).contains(x) <==> views(table_names@).contains(x),
{
    let mut out: Vec<String> = Vec::new();
    let mut i: usize = 0;
    while i < table_names.len()
        invariant
            i <= table_names.len(),
            strictly_sorted(views(out@)),
            forall|x: Seq<char>| #[trigger] views(out@).contains(x) <==> views(table_names@.subrange(0, i as int)).contains(x),
        decreases table_names.len() - i,
    {
        let name = &table_names[i];
        let ghost vs = views(out@);
        let mut p: usize = 0;
        while p < out.len() && str_lt(out[p].as_str(), name.as_str())
            invariant
                p <= out.len(),
                vs == views(out@),
                forall|k: int| 0 <= k < p ==> seq_lt(#[trigger] vs[k], name@),
            decreases out.len() - p,
        {
            p = p + 1;
        }
        let ghost prefix = views(table_names@.subrange(0, i as int));
        let ghost next = views(table_names@.subrange(0, i + 1));
        assert(next =~= prefix.push(name@));
        if p < out.len() && str_eq(out[p].as_str(), name.as_str()) {
            assert forall|x: Seq<char>| #[trigger] views(out@).contains(x) <==> next.contains(x) by {
                if x == name@ {
                    assert(next[prefix.len() as int] == x);
                }
                if next.contains(x) && x == name@ {
                    assert(vs[p as int] == x);
                }
                if prefix.contains(x) {
                    let k = choose|k: int| 0 <= k < prefix.len() && prefix[k] == x;
                    assert(next[k] == x);
                }
                if next.contains(x) && x != name@ {
                    let k = choose|k: int| 0 <= k < next.len() && next[k] == x;
                    assert(prefix[k] == x);
                }
            }
        } else {
            proof {
                if p < out.len() {
                    lemma_seq_lt_total(vs[p as int], name@);
                }
                lemma_insert_sorted(vs, p as int, name@);
            }
            out.insert(p, name.clone());
            assert(views(out@) =~= vs.insert(p as int, name@));
            assert forall|x: Seq<char>| #[trigger] views(out@).contains(x) <==> next.contains(x) by {
                let t = vs.insert(p as int, name@);
                if t.contains(x) {
                    let k = choose|k: int| 0 <= k < t.len() && t[k] == x;
                    if k < p {
                        assert(vs[k] == x);
                    } else if k > p {
                        assert(vs[k - 1] == x);
                    }
                }
                if vs.contains(x) {
                    let k = choose|k: int| 0 <= k < vs.len() && vs[k] == x;
                    if k < p {
                        assert(t[k] == x);
                    } else {
                        assert(t[k + 1] == x);
                    }
                }
                if x == name@ {
                    assert(t[p as int] == x);
                    assert(next[prefix.len() as int] == x);
                }
                if next.contains(x) && x != name@ {
                    let k = choose|k: int| 0 <= k < next.len() && next[k] == x;
                    assert(prefix[k] == x);
                }
                if prefix.contains(x) {
                    let k = choose|k: int| 0 <= k < prefix.len() && prefix[k] == x;
                    assert(next[k] == x);
                }
            }
        }
        i = i + 1;
    }
    assert(table_names@.subrange(0, table_names@.len() as int) =~= table_names@);
    Ok(out)
}

/// How many page items a window takes: none once the window is full, else
/// as many of the items after the skipped ones as still fit.
pub open spec fn window_take(page_len: nat, start: nat, collected: nat, limit: nat) -> nat {
    if collected >= limit {
        0
    } else if page_len - start <= limit - collected {
        (page_len - start) as nat
    } else {
        (limit - collected) as nat
    }
}

/// Adds one page of items to a result window: first skips up to
/// `remaining_skip` items (counting them off), then appends clones of the
/// following items until the window holds `limit` items. Returns whether items
/// of the page were left over because the window filled up.
pub fn append_window_items<T: Clone>(
    page_items: &Vec<T>,
    remaining_skip: &mut u64,
    collected: &mut Vec<T>,
    limit: usize,
) -> (has_more: bool)
    ensures
        ({
            let start = if *old(remaining_skip) >= page_items.len() { page_items.len() as nat } else { *old(remaining_skip) as nat };
            let take = window_take(page_items.len() as nat, start, old(collected).len() as nat, limit as nat);
            &&& *final(remaining_skip) == *old(remaining_skip) - start
            &&& final(collected).len() == old(collected).len() + take
            &&& forall|k: int| 0 <= k < old(collected).len() ==> #[trigger] final(collected)@[k] == old(collected)@[k]
            &&& forall|k: int| 0 <= k < take ==> cloned(page_items@[start + k], #[trigger] final(collected)@[old(collected).len() + k])
            &&& has_more == (start + take < page_items.len())
        }),
{
    let start: usize = if *remaining_skip >= page_items.len() as u64 {
        page_items.len()
    } else {
        *remaining_skip as usize
    };
    *remaining_skip = *remaining_skip - start as u64;
    let ghost old_len = collected.len();
    let ghost old_items = collected@;
    let mut has_more = false;
    let mut i = start;
    while i < page_items.len()
        invariant_except_break
            start <= i <= page_items.len(),
            collected.len() == old_len + (i - start),
            old_len + (i - start) <= limit || (i == start && old_len >= limit),
            old_items.len() == old_len,
            forall|k: int| 0 <= k < old_len ==> #[trigger] collected@[k] == old_items[k],
            forall|k: int| 0 <= k < i - start ==> cloned(page_items@[start + k], #[trigger] collected@[old_len + k]),
            !has_more,
        ensures
            start <= i <= page_items.len(),
            collected.len() == old_len + (i - start),
            old_items.len() == old_len,
            forall|k: int| 0 <= k < old_len ==> #[trigger] collected@[k] == old_items[k],
            forall|k: int| 0 <= k < i - start ==> cloned(page_items@[start + k], #[trigger] collected@[old_len + k]),
            has_more ==> i < page_items.len() && collected.len() >= limit,
            old_len + (i - start) <= limit || (i == start && old_len >= limit),
            !has_more ==> i == page_items.len(),
        decreases page_items.len() - i,
    {
        if collected.len() >= limit {
            has_more = true;
            break;
        }
        let item = page_items[i].clone();
        collected.push(item);
        i = i + 1;
    }
    has_more
}

/// The progress of reading one window of items page by page: items still to
/// skip, items collected so far, and whether more items exist past the window.
#[derive(Debug)]
pub struct ReadWindow<T> {
    pub remaining_skip: u64,
    pub collected: Vec<T>,
    pub has_more: bool,
    pub limit: usize,
}

impl<T: Clone> ReadWindow<T> {
    /// A window of up to `limit` items after the first `offset` items.
    pub fn new(offset: u64, limit: usize) -> (r: ReadWindow<T>)
        ensures
            r.remaining_skip == offset,
            r.collected.len() == 0,
            !r.has_more,
            r.limit == limit,
    {
        ReadWindow { remaining_skip: offset, collected: Vec::new(), has_more: false, limit }
    }

    /// Whether the window is complete before fetching another page: it is full
    /// (an empty window is full at once).
    pub fn is_full(&self) -> (r: bool)
        ensures
            r == (self.collected.len() >= self.limit),
    {
        self.collected.len() >= self.limit
    }

    /// How many items to ask the next page for: what remains to skip plus what
    /// remains to collect, at least one and at most one hundred.
    pub fn request_limit(&self) -> (r: i32)
        requires
            self.collected.len() <= self.limit,
        ensures
            r as int == if self.remaining_skip as int + (self.limit - self.collected.len()) >= 100 {
                100
            } else if self.remaining_skip as int + (self.limit - self.collected.len()) < 1 {
                1
            } else {
                self.remaining_skip as int + (self.limit - self.collected.len())
            },
    {
        let wanted = (self.limit - self.collected.len()) as u64;
        let total: u64 = if self.remaining_skip > u64::MAX - wanted { u64::MAX } else { self.remaining_skip + wanted };
        let capped: u64 = if total < 100 { total } else { 100 };
        if capped < 1 { 1 } else { capped as i32 }
    }

    /// Takes in one fetched page and says whether to fetch the next one. An
    /// empty page only moves on, if there is a next page. Otherwise the page's
    /// items enter the window; once it is full, a next page or left-over items
    /// mean more items exist, and reading stops.
    pub fn absorb_page(&mut self, items: &Vec<T>, has_next_page: bool) -> (fetch_next: bool)
        ensures
            final(self).limit == old(self).limit,
            items.len() == 0 ==> {
                &&& fetch_next == has_next_page
                &&& final(self).remaining_skip == old(self).remaining_skip
                &&& final(self).collected@ == old(self).collected@
                &&& final(self).has_more == old(self).has_more
            },
            items.len() > 0 ==> ({
                let start = if old(self).remaining_skip >= items.len() { items.len() as nat } else { old(self).remaining_skip as nat };
                let take = window_take(items.len() as nat, start, old(self).collected.len() as nat, old(self).limit as nat);
                let full = old(self).collected.len() + take >= old(self).limit;
                &&& final(self).remaining_skip == old(self).remaining_skip - start
                &&& final(self).collected.len() == old(self).collected.len() + take
                &&& forall|k: int| 0 <= k < old(self).collected.len() ==> #[trigger] final(self).collected@[k] == old(self).collected@[k]
                &&& forall|k: int| 0 <= k < take ==> cloned(items@[start + k], #[trigger] final(self).collected@[old(self).collected.len() + k])
                &&& final(self).has_more == (old(self).has_more || start + take < items.len() || (full && has_next_page))
                &&& fetch_next == (!full && has_next_page)
            }),
    {
        if items.len() == 0 {
            return has_next_page;
        }
        let page_has_more = append_window_items(items, &mut self.remaining_skip, &mut self.collected, self.limit);
        self.has_more = self.has_more || page_has_more;
        if self.collected.len() >= self.limit {
            self.has_more = self.has_more || has_next_page;
            return false;
        }
        has_next_page
    }
}

/// A running item count across pages: adds a page's count, saturating.
pub fn add_page_count(total: u64, page_count: u64) -> (r: u64)
    ensures
        r == if total + page_count > u64::MAX { u64::MAX as int } else { total + page_count },
{
    if total > u64::MAX - page_count {
        u64::MAX
    } else {
        total + page_count
    }
}

} // verus!
