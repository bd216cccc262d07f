//! Audit events: their export as CSV, query fingerprints, and the SQL that
//! filters stored events.
use vstd::prelude::*;
use crate::error::opt_view;
use crate::json::{
    JValue, JNum, JsonNumber, JsonValue, member_get, member_has, view_members, lemma_view_members, object_get,
    parse_json_text, json_text, spec_parse_json, spec_json_text,
};
use crate::text::{chars_of, string_from_chars, sub_chars, cat3, cat, i64_to_decimal, join, spec_join, spec_signed_decimal, spec_trim, trim, u64_to_decimal, spec_decimal, views};

verus! {

/// One recorded authorization decision.
#[derive(Debug)]
pub struct AuditEvent {
    pub id: i64,
    pub actor_id: String,
    pub tool_id: String,
    pub decision: String,
    pub reason: Option<String>,
    pub created_at_epoch_ms: i64,
}

/// The formats audit events export to.
#[derive(Debug, Clone, Copy, PartialEq, Eq, Structural)]
pub enum AuditExportFormat {
    Csv,
    Json,
}

/// A filter over audit events.
#[derive(Debug)]
pub struct AuditQueryFilter {
    pub actor_id: Option<String>,
    pub tool_id: Option<String>,
    pub decision: Option<String>,
    pub start_epoch_ms: Option<i64>,
    pub end_epoch_ms: Option<i64>,
    pub limit: Option<usize>,
}

/// `s` with each `"` doubled.
pub open spec fn csv_escape(s: Seq<char>) -> Seq<char> {
    crate::ddl::double_quote_char(s, '"')
}

/// One CSV line for an event: id, actor, tool and decision as they are, the
/// reason quoted (empty when absent) with quotes doubled, then the time.
pub open spec fn csv_line(e: AuditEvent) -> Seq<char> {
    spec_signed_decimal(e.id as int) + ","@ + e.actor_id@ + ","@ + e.tool_id@ + ","@ + e.decision@ + ",\""@
        + csv_escape(match e.reason {
            Some(r) => r@,
            None => Seq::empty(),
        }) + "\","@ + spec_signed_decimal(e.created_at_epoch_ms as int) + "\n"@
}

/// The CSV lines of events, in order.
pub open spec fn csv_lines(entries: Seq<AuditEvent>) -> Seq<char>
    decreases entries.len(),
{
    if entries.len() == 0 {
        Seq::empty()
    } else {
        csv_lines(entries.drop_last()) + csv_line(entries.last())
    }
}

/// The CSV header line.
pub open spec fn csv_header() -> Seq<char> {
    "id,actor_id,tool_id,decision,reason,created_at_epoch_ms\n"@
}

fn csv_escape_text(s: &str) -> (r: String)
    ensures
        r@ == csv_escape(s@),
{
    crate::ddl::escape_text(s, '"')
}

fn csv_line_text(e: &AuditEvent) -> (r: String)
    ensures
        r@ == csv_line(*e),
{
    let reason = match &e.reason {
        Some(r) => csv_escape_text(r.as_str()),
        None => String::new(),
    };
    proof {
        if e.reason is None {
            assert(csv_escape(Seq::<char>::empty()) =~= Seq::<char>::empty());
        }
    }
    let mut line = i64_to_decimal(e.id);
    line.append(",");
    line.append(e.actor_id.as_str());
    line.append(",");
    line.append(e.tool_id.as_str());
    line.append(",");
    line.append(e.decision.as_str());
    line.append(",\"");
    line.append(reason.as_str());
    line.append("\",");
    line.append(i64_to_decimal(e.created_at_epoch_ms).as_str());
    line.append("\n");
    line
}

/// The events as CSV: a header line, then one line per event.
pub fn export_csv(entries: &Vec<AuditEvent>) -> (r: String)
    ensures
        r@ == csv_header() + csv_lines(entries@),
{
    let mut output = String::from_str("id,actor_id,tool_id,decision,reason,created_at_epoch_ms\n");
    let mut i: usize = 0;
    while i < entries.len()
        invariant
            i <= entries.len(),
            output@ == csv_header() + csv_lines(entries@.subrange(0, i as int)),
        decreases entries.len() - i,
    {
        let line = csv_line_text(&entries[i]);
        let ghost before = output@;
        output.append(line.as_str());
        proof {
            let cur = entries@.subrange(0, i + 1);
            assert(cur.drop_last() =~= entries@.subrange(0, i as int));
            assert(csv_lines(cur) == csv_lines(entries@.subrange(0, i as int)) + csv_line(entries@[i as int]));
            assert(output@ =~= csv_header() + csv_lines(cur));
        }
        i = i + 1;
    }
    assert(entries@.subrange(0, entries@.len() as int) =~= entries@);
    output
}

/// The SHA-256 digest of a text's UTF-8 bytes.
pub uninterp spec fn spec_sha256(text: Seq<char>) -> Seq<u8>;

/// `sha2::Sha256::digest(text.as_bytes())`: the SHA-256 digest of the text's
/// UTF-8 bytes, named by `spec_sha256`; it is thirty-two bytes long, as
/// SHA-256 digests are.
#[verifier::external_body]
fn sha256_digest(text: &str) -> (r: Vec<u8>)
    ensures
        r@ == spec_sha256(text@),
        r.len() == 32,
{
    <sha2::Sha256 as sha2::Digest>::digest(text.as_bytes()).to_vec()
}

/// The lowercase hex digit for a value below sixteen.
pub open spec fn hex_char(d: u8) -> char {
    if d < 10 {
        (('0' as u8) + d) as char
    } else {
        (('a' as u8) + d - 10) as char
    }
}

/// Each byte as two lowercase hex digits, high digit first.
pub open spec fn hex_text(bytes: Seq<u8>) -> Seq<char>
    decreases bytes.len(),
{
    if bytes.len() == 0 {
        Seq::empty()
    } else {
        hex_text(bytes.drop_last()) + seq![hex_char(bytes.last() / 16), hex_char(bytes.last() % 16)]
    }
}

/// `hex::encode`: each byte as two lowercase hex digits, as the hex crate documents.
#[verifier::external_body]
fn hex_encode(bytes: &Vec<u8>) -> (r: String)
    ensures
        r@ == hex_text(bytes@),
{
    hex::encode(bytes)
}

/// The fingerprint of a query text: the lowercase hex of the SHA-256 digest
/// of the text trimmed and in lower case.
pub fn sha256_fingerprint(text: &str) -> (r: String)
    ensures
        r@ == hex_text(spec_sha256(crate::dynamo::errors::spec_to_lowercase(spec_trim(text@)))),
        r@.len() == 64,
{
    let trimmed = trim(text);
    let normalized = crate::dynamo::errors::lowercase(trimmed.as_str());
    let digest = sha256_digest(normalized.as_str());
    proof {
        lemma_hex_text_len(digest@);
    }
    hex_encode(&digest)
}

proof fn lemma_hex_text_len(bytes: Seq<u8>)
    ensures
        hex_text(bytes).len() == 2 * bytes.len(),
    decreases bytes.len(),
{
    if bytes.len() > 0 {
        lemma_hex_text_len(bytes.drop_last());
    }
}

/// The fingerprint a query text is recorded as: its first sixteen hex digits.
pub open spec fn fingerprint_marker(query: Seq<char>) -> Seq<char> {
    "[FINGERPRINT:"@ + hex_text(spec_sha256(crate::dynamo::errors::spec_to_lowercase(spec_trim(query)))).take(16) + "]"@
}

/// The members with every one named `key` set to `v`, or `(key, v)`
/// appended when none is.
pub open spec fn with_member(members: Seq<(Seq<char>, JValue)>, key: Seq<char>, v: JValue) -> Seq<(Seq<char>, JValue)> {
    if member_has(members, key) {
        members.map_values(|m: (Seq<char>, JValue)| if m.0 == key { (key, v) } else { m })
    } else {
        members.push((key, v))
    }
}

/// Event details with the query text they carry replaced by its
/// fingerprint and its length in bytes: for an object whose `query` is a
/// string; other details stay as they are.
pub open spec fn fingerprinted(details: JValue) -> Option<JValue> {
    match details {
        JValue::Object(members) => match member_get(members, "query"@) {
            Some(JValue::Str(q)) => Some(JValue::Object(with_member(
                with_member(members, "query"@, JValue::Str(fingerprint_marker(q))),
                "query_length"@,
                JValue::Number(JNum::PosInt(vstd::utf8::encode_utf8(q).len())),
            ))),
            _ => None,
        },
        _ => None,
    }
}

fn set_member(members: &Vec<(String, JsonValue)>, key: &str, value: JsonValue) -> (r: Vec<(String, JsonValue)>)
    ensures
        view_members(r@) == with_member(view_members(members@), key@, value@),
{
    proof {
        lemma_view_members(members@);
    }
    let ghost vm = view_members(members@);
    let mut out: Vec<(String, JsonValue)> = Vec::new();
    let mut found = false;
    let mut i: usize = 0;
    while i < members.len()
        invariant
            i <= members.len(),
            vm == view_members(members@),
            vm.len() == members.len(),
            forall|k: int| 0 <= k < members.len() ==> #[trigger] vm[k] == (members@[k].0@, members@[k].1@),
            out.len() == i,
            forall|k: int| 0 <= k < i ==> (#[trigger] out@[k]).0@ == (if vm[k].0 == key@ { key@ } else { vm[k].0 })
                && out@[k].1@ == (if vm[k].0 == key@ { value@ } else { vm[k].1 }),
            found <==> exists|k: int| 0 <= k < i && vm[k].0 == key@,
        decreases members.len() - i,
    {
        assert(vm[i as int].0 == members@[i as int].0@);
        if crate::text::str_eq(members[i].0.as_str(), key) {
            out.push((String::from_str(key), value.duplicate()));
            found = true;
        } else {
            out.push((members[i].0.clone(), members[i].1.duplicate()));
        }
        i = i + 1;
    }
    proof {
        lemma_view_members(out@);
    }
    if !found {
        out.push((String::from_str(key), value));
        proof {
            lemma_view_members(out@);
            assert(view_members(out@) =~= vm.push((key@, value@)));
        }
    } else {
        assert(view_members(out@) =~= vm.map_values(
            |m: (Seq<char>, JValue)| if m.0 == key@ { (key@, value@) } else { m },
        ));
    }
    out
}

/// Replaces the query text of parsed event details by its fingerprint and
/// records its length in bytes; `None` when the details carry no query text.
pub fn fingerprint_details(details: &JsonValue) -> (r: Option<JsonValue>)
    ensures
        match r {
            Some(v) => fingerprinted(details@) == Some(v@),
            None => fingerprinted(details@) is None,
        },
{
    let members = match details {
        JsonValue::Object(m) => m,
        _ => return None,
    };
    let query = match object_get(members, "query") {
        Some(JsonValue::Str(q)) => q,
        _ => return None,
    };
    let fingerprint = sha256_fingerprint(query.as_str());
    let chars = chars_of(fingerprint.as_str());
    let prefix = string_from_chars(sub_chars(&chars, 0, 16).as_slice());
    let marker = cat3("[FINGERPRINT:", prefix.as_str(), "]");
    let bytes = query.as_str().as_bytes();
    let length = bytes.len() as u64;
    assert(prefix@ == fingerprint@.take(16));
    assert(marker@ == fingerprint_marker(query@));
    let with_query = set_member(members, "query", JsonValue::Str(marker));
    let result = set_member(&with_query, "query_length", JsonValue::Number(JsonNumber::PosInt(length)));
    Some(JsonValue::Object(result))
}

/// The event details text with its query fingerprinted, when it is a JSON
/// object carrying a query text; `None` leaves the details as they are.
pub fn apply_query_fingerprint(details: &str) -> (r: Option<String>)
    ensures
        match spec_parse_json(details@) {
            Ok(v) => match fingerprinted(v) {
                Some(w) => r matches Some(t) && t@ == spec_json_text(w),
                None => r is None,
            },
            Err(_) => r is None,
        },
{
    match parse_json_text(details) {
        Ok(v) => match fingerprint_details(&v) {
            Some(w) => Some(json_text(&w)),
            None => None,
        },
        Err(_) => None,
    }
}

/// A value bound into an audit query.
#[derive(Debug)]
pub enum SqlParam {
    Int(i64),
    Text(String),
}

pub ghost enum SqlParamView {
    Int(i64),
    Text(Seq<char>),
}

impl SqlParam {
    pub open spec fn view(&self) -> SqlParamView {
        match self {
            SqlParam::Int(n) => SqlParamView::Int(*n),
            SqlParam::Text(s) => SqlParamView::Text(s@),
        }
    }
}

/// A filter over stored audit events.
#[derive(Debug)]
pub struct StoredAuditFilter {
    pub id: Option<i64>,
    pub actor_id: Option<String>,
    pub tool_id: Option<String>,
    pub decision: Option<String>,
    pub profile_id: Option<String>,
    pub classification: Option<String>,
    pub start_epoch_ms: Option<i64>,
    pub end_epoch_ms: Option<i64>,
    pub limit: Option<usize>,
}

/// `s` with `x` appended when `present`.
pub open spec fn opt_push<A>(s: Seq<A>, present: bool, x: A) -> Seq<A> {
    if present {
        s.push(x)
    } else {
        s
    }
}

/// The conditions a filter sets, in a fixed order.
pub open spec fn condition_texts(f: StoredAuditFilter) -> Seq<Seq<char>> {
    let c1 = opt_push(Seq::empty(), f.id is Some, "id = ?"@);
    let c2 = opt_push(c1, f.actor_id is Some, "actor_id = ?"@);
    let c3 = opt_push(c2, f.tool_id is Some, "tool_id = ?"@);
    let c4 = opt_push(c3, f.decision is Some, "decision = ?"@);
    let c5 = opt_push(c4, f.profile_id is Some, "profile_id = ?"@);
    let c6 = opt_push(c5, f.classification is Some, "classification = ?"@);
    let c7 = opt_push(c6, f.start_epoch_ms is Some, "created_at_epoch_ms >= ?"@);
    opt_push(c7, f.end_epoch_ms is Some, "created_at_epoch_ms <= ?"@)
}

/// The values the conditions bind, in the same order.
pub open spec fn condition_params(f: StoredAuditFilter) -> Seq<SqlParamView> {
    let c1 = opt_push(Seq::empty(), f.id is Some, SqlParamView::Int(f.id->0));
    let c2 = opt_push(c1, f.actor_id is Some, SqlParamView::Text(f.actor_id->0@));
    let c3 = opt_push(c2, f.tool_id is Some, SqlParamView::Text(f.tool_id->0@));
    let c4 = opt_push(c3, f.decision is Some, SqlParamView::Text(f.decision->0@));
    let c5 = opt_push(c4, f.profile_id is Some, SqlParamView::Text(f.profile_id->0@));
    let c6 = opt_push(c5, f.classification is Some, SqlParamView::Text(f.classification->0@));
    let c7 = opt_push(c6, f.start_epoch_ms is Some, SqlParamView::Int(f.start_epoch_ms->0));
    opt_push(c7, f.end_epoch_ms is Some, SqlParamView::Int(f.end_epoch_ms->0))
}

/// The select list and table of the audit query.
pub open spec fn audit_select() -> Seq<char> {
    "SELECT id, actor_id, tool_id, decision, reason, profile_id, classification, duration_ms, created_at, created_at_epoch_ms FROM aud_audit_events"@
}

/// The audit query for a filter: the conditions joined by `AND` after
/// `WHERE` (no `WHERE` without conditions), ordered by id, with the limit if any.
pub open spec fn spec_audit_query_sql(f: StoredAuditFilter) -> Seq<char> {
    let conds = condition_texts(f);
    let where_clause = if conds.len() == 0 {
        Seq::empty()
    } else {
        " WHERE "@ + spec_join(conds, " AND "@)
    };
    audit_select() + where_clause + " ORDER BY id ASC"@ + match f.limit {
        Some(l) => " LIMIT "@ + spec_decimal(l as nat),
        None => Seq::empty(),
    }
}

pub open spec fn param_views(v: Seq<SqlParam>) -> Seq<SqlParamView> {
    v.map_values(|p: SqlParam| p@)
}

fn add_condition(conditions: &mut Vec<String>, values: &mut Vec<SqlParam>, text: &str, value: Option<SqlParam>)
    ensures
        views(final(conditions)@) == opt_push(views(old(conditions)@), value is Some, text@),
        param_views(final(values)@) == opt_push(param_views(old(values)@), value is Some, value->0@),
{
    match value {
        Some(v) => {
            let ghost vc = views(conditions@);
            let ghost vv = param_views(values@);
            let ghost pv = v@;
            conditions.push(String::from_str(text));
            values.push(v);
            assert(views(conditions@) =~= vc.push(text@));
            assert(param_views(values@) =~= vv.push(pv));
        },
        None => {},
    }
}

fn text_param(o: &Option<String>) -> (r: Option<SqlParam>)
    ensures
        (r is Some) == (o is Some),
        o is Some ==> r->0@ == SqlParamView::Text(o->0@),
{
    match o {
        Some(s) => Some(SqlParam::Text(s.clone())),
        None => None,
    }
}

fn int_param(o: Option<i64>) -> (r: Option<SqlParam>)
    ensures
        (r is Some) == (o is Some),
        o is Some ==> r->0@ == SqlParamView::Int(o->0),
{
    match o {
        Some(n) => Some(SqlParam::Int(n)),
        None => None,
    }
}

/// The SQL that selects the audit events a filter admits, and the values it binds, in order.
pub fn audit_query_sql(filter: &StoredAuditFilter) -> (r: (String, Vec<SqlParam>))
    ensures
        r.0@ == spec_audit_query_sql(*filter),
        param_views(r.1@) == condition_params(*filter),
{
    let mut conditions: Vec<String> = Vec::new();
    let mut values: Vec<SqlParam> = Vec::new();
    assert(views(conditions@) =~= Seq::<Seq<char>>::empty());
    assert(param_views(values@) =~= Seq::<SqlParamView>::empty());
    add_condition(&mut conditions, &mut values, "id = ?", int_param(filter.id));
    add_condition(&mut conditions, &mut values, "actor_id = ?", text_param(&filter.actor_id));
    add_condition(&mut conditions, &mut values, "tool_id = ?", text_param(&filter.tool_id));
    add_condition(&mut conditions, &mut values, "decision = ?", text_param(&filter.decision));
    add_condition(&mut conditions, &mut values, "profile_id = ?", text_param(&filter.profile_id));
    add_condition(&mut conditions, &mut values, "classification = ?", text_param(&filter.classification));
    add_condition(&mut conditions, &mut values, "created_at_epoch_ms >= ?", int_param(filter.start_epoch_ms));
    add_condition(&mut conditions, &mut values, "created_at_epoch_ms <= ?", int_param(filter.end_epoch_ms));
    let mut sql = String::from_str(
        "SELECT id, actor_id, tool_id, decision, reason, profile_id, classification, duration_ms, created_at, created_at_epoch_ms FROM aud_audit_events",
    );
    if conditions.len() > 0 {
        sql.append(" WHERE ");
        sql.append(join(&conditions, " AND ").as_str());
    }
    sql.append(" ORDER BY id ASC");
    if let Some(limit) = filter.limit {
        sql.append(" LIMIT ");
        sql.append(u64_to_decimal(limit as u64).as_str());
    }
    (sql, values)
}

/// An audit event as the database stores it.
#[derive(Debug, Clone)]
pub struct AuditEventDto {
    pub id: i64,
    pub actor_id: String,
    pub tool_id: String,
    pub decision: String,
    pub reason: Option<String>,
    pub profile_id: Option<String>,
    pub classification: Option<String>,
    pub duration_ms: Option<i64>,
    pub created_at: String,
    pub created_at_epoch_ms: i64,
}

/// An audit event to append.
#[derive(Debug, Clone, Copy)]
pub struct AppendAuditEvent<'a> {
    pub actor_id: &'a str,
    pub tool_id: &'a str,
    pub decision: &'a str,
    pub reason: Option<&'a str>,
    pub profile_id: Option<&'a str>,
    pub classification: Option<&'a str>,
    pub duration_ms: Option<i64>,
    pub created_at_epoch_ms: i64,
}

pub open spec fn str_opt_view(o: Option<&str>) -> Option<Seq<char>> {
    match o {
        Some(s) => Some(s@),
        None => None,
    }
}

fn owned_opt(o: Option<&str>) -> (r: Option<String>)
    ensures
        opt_view(r) == str_opt_view(o),
{
    match o {
        Some(s) => Some(String::from_str(s)),
        None => None,
    }
}

impl AuditEventDto {
    /// The record an appended event becomes once the database gave it the
    /// row id `id`, stamped with the text `created_at`.
    pub fn appended(event: &AppendAuditEvent, id: i64, created_at: String) -> (r: AuditEventDto)
        ensures
            r.id == id,
            r.actor_id@ == event.actor_id@,
            r.tool_id@ == event.tool_id@,
            r.decision@ == event.decision@,
            opt_view(r.reason) == str_opt_view(event.reason),
            opt_view(r.profile_id) == str_opt_view(event.profile_id),
            opt_view(r.classification) == str_opt_view(event.classification),
            r.duration_ms == event.duration_ms,
            r.created_at@ == created_at@,
            r.created_at_epoch_ms == event.created_at_epoch_ms,
    {
        AuditEventDto {
            id,
            actor_id: String::from_str(event.actor_id),
            tool_id: String::from_str(event.tool_id),
            decision: String::from_str(event.decision),
            reason: owned_opt(event.reason),
            profile_id: owned_opt(event.profile_id),
            classification: owned_opt(event.classification),
            duration_ms: event.duration_ms,
            created_at,
            created_at_epoch_ms: event.created_at_epoch_ms,
        }
    }
}

/// What recording one event comes to.
#[derive(Debug)]
pub enum RecordStep {
    /// Auditing is switched off: the event passes through unrecorded.
    Skip,
    /// The event names no action, which every recorded event must.
    MissingAction,
    /// Store the event with these details, after redacting its sensitive
    /// values when `redact` holds.
    Store { details_json: Option<String>, redact: bool },
}

/// The details an event is stored with: unchanged while query text is
/// captured; otherwise with the query text fingerprinted, where they are a
/// JSON object that carries one.
pub open spec fn spec_recorded_details(capture: bool, details: Option<Seq<char>>) -> Option<Seq<char>> {
    match details {
        None => None,
        Some(d) => if capture {
            Some(d)
        } else {
            match spec_parse_json(d) {
                Ok(v) => match fingerprinted(v) {
                    Some(w) => Some(spec_json_text(w)),
                    None => Some(d),
                },
                Err(_) => Some(d),
            }
        },
    }
}

/// The switches of the audit service: whether it records at all, whether it
/// redacts sensitive values, and whether it keeps query text in full.
#[derive(Debug, Clone, Copy)]
pub struct AuditService {
    redact_sensitive: bool,
    enabled: bool,
    capture_query_text: bool,
}

impl AuditService {
    pub closed spec fn redacts(&self) -> bool {
        self.redact_sensitive
    }

    pub closed spec fn records(&self) -> bool {
        self.enabled
    }

    pub closed spec fn captures(&self) -> bool {
        self.capture_query_text
    }

    /// A service that records, redacts sensitive values and fingerprints
    /// query text.
    pub fn new() -> (r: AuditService)
        ensures
            r.redacts(),
            r.records(),
            !r.captures(),
    {
        AuditService { redact_sensitive: true, enabled: true, capture_query_text: false }
    }

    pub fn set_redact_sensitive(&mut self, redact: bool)
        ensures
            final(self).redacts() == redact,
            final(self).records() == old(self).records(),
            final(self).captures() == old(self).captures(),
    {
        self.redact_sensitive = redact;
    }

    pub fn redact_sensitive(&self) -> (r: bool)
        ensures
            r == self.redacts(),
    {
        self.redact_sensitive
    }

    pub fn set_enabled(&mut self, enabled: bool)
        ensures
            final(self).records() == enabled,
            final(self).redacts() == old(self).redacts(),
            final(self).captures() == old(self).captures(),
    {
        self.enabled = enabled;
    }

    pub fn is_enabled(&self) -> (r: bool)
        ensures
            r == self.records(),
    {
        self.enabled
    }

    pub fn set_capture_query_text(&mut self, capture: bool)
        ensures
            final(self).captures() == capture,
            final(self).redacts() == old(self).redacts(),
            final(self).records() == old(self).records(),
    {
        self.capture_query_text = capture;
    }

    pub fn capture_query_text(&self) -> (r: bool)
        ensures
            r == self.captures(),
    {
        self.capture_query_text
    }

    /// What recording an event with this action and these details comes
    /// to: a refusal when the action is empty, whether or not auditing is
    /// on; else nothing while auditing is off; else storing it with its
    /// details as `spec_recorded_details` gives them, redacted when the
    /// service redacts.
    pub fn record(&self, action: &str, details_json: Option<&str>) -> (r: RecordStep)
        ensures
            action@.len() == 0 ==> r is MissingAction,
            action@.len() > 0 && !self.records() ==> r is Skip,
            action@.len() > 0 && self.records() ==> (r matches RecordStep::Store { details_json: d, redact }
                && opt_view(d) == spec_recorded_details(self.captures(), str_opt_view(details_json))
                && redact == self.redacts()),
    {
        if chars_of(action).len() == 0 {
            return RecordStep::MissingAction;
        }
        if !self.enabled {
            return RecordStep::Skip;
        }
        let details: Option<String> = match details_json {
            None => None,
            Some(d) => if self.capture_query_text {
                Some(String::from_str(d))
            } else {
                match apply_query_fingerprint(d) {
                    Some(t) => Some(t),
                    None => Some(String::from_str(d)),
                }
            },
        };
        RecordStep::Store { details_json: details, redact: self.redact_sensitive }
    }
}

/// A stored audit event, as the query's conditions read its columns.
pub ghost struct AuditRow {
    pub id: i64,
    pub actor_id: Seq<char>,
    pub tool_id: Seq<char>,
    pub decision: Seq<char>,
    pub profile_id: Option<Seq<char>>,
    pub classification: Option<Seq<char>>,
    pub created_at_epoch_ms: i64,
}

/// What an SQL condition of the audit query means for a row, its `?` bound
/// to `p`: an equality compares the column with the value (a missing column
/// value, SQL `NULL`, equals nothing); `>= ?` and `<= ?` bound the creation
/// time from below and from above.
pub open spec fn condition_holds(cond: Seq<char>, p: SqlParamView, row: AuditRow) -> bool {
    if cond == "id = ?"@ {
        p == SqlParamView::Int(row.id)
    } else if cond == "actor_id = ?"@ {
        p == SqlParamView::Text(row.actor_id)
    } else if cond == "tool_id = ?"@ {
        p == SqlParamView::Text(row.tool_id)
    } else if cond == "decision = ?"@ {
        p == SqlParamView::Text(row.decision)
    } else if cond == "profile_id = ?"@ {
        row.profile_id matches Some(v) && p == SqlParamView::Text(v)
    } else if cond == "classification = ?"@ {
        row.classification matches Some(v) && p == SqlParamView::Text(v)
    } else if cond == "created_at_epoch_ms >= ?"@ {
        p matches SqlParamView::Int(v) && row.created_at_epoch_ms >= v
    } else if cond == "created_at_epoch_ms <= ?"@ {
        p matches SqlParamView::Int(v) && row.created_at_epoch_ms <= v
    } else {
        false
    }
}

/// Every condition holds of the row, with its bound value.
pub open spec fn all_conditions_hold(conds: Seq<Seq<char>>, params: Seq<SqlParamView>, row: AuditRow) -> bool {
    forall|i: int| 0 <= i < conds.len() ==> condition_holds(#[trigger] conds[i], params[i], row)
}

/// Whether a filter admits an event: each criterion it sets matches, the
/// creation time lies between the start and the end, both included.
pub open spec fn filter_admits(f: StoredAuditFilter, row: AuditRow) -> bool {
    &&& f.id matches Some(i) ==> row.id == i
    &&& f.actor_id matches Some(a) ==> row.actor_id == a@
    &&& f.tool_id matches Some(t) ==> row.tool_id == t@
    &&& f.decision matches Some(d) ==> row.decision == d@
    &&& f.profile_id matches Some(x) ==> row.profile_id == Some(x@)
    &&& f.classification matches Some(c) ==> row.classification == Some(c@)
    &&& f.start_epoch_ms matches Some(s) ==> row.created_at_epoch_ms >= s
    &&& f.end_epoch_ms matches Some(e) ==> row.created_at_epoch_ms <= e
}

proof fn lemma_push_condition(
    conds: Seq<Seq<char>>,
    params: Seq<SqlParamView>,
    present: bool,
    c: Seq<char>,
    p: SqlParamView,
    row: AuditRow,
)
    requires
        conds.len() == params.len(),
    ensures
        opt_push(conds, present, c).len() == opt_push(params, present, p).len(),
        all_conditions_hold(opt_push(conds, present, c), opt_push(params, present, p), row)
            == (all_conditions_hold(conds, params, row) && (present ==> condition_holds(c, p, row))),
{
    if present {
        let cs = conds.push(c);
        let ps = params.push(p);
        if all_conditions_hold(cs, ps, row) {
            assert(condition_holds(cs[conds.len() as int], ps[conds.len() as int], row));
            assert forall|i: int| 0 <= i < conds.len() implies condition_holds(#[trigger] conds[i], params[i], row) by {
                assert(condition_holds(cs[i], ps[i], row));
            }
        }
        if all_conditions_hold(conds, params, row) && condition_holds(c, p, row) {
            assert forall|i: int| 0 <= i < cs.len() implies condition_holds(#[trigger] cs[i], ps[i], row) by {
                if i < conds.len() {
                    assert(condition_holds(conds[i], params[i], row));
                }
            }
        }
    }
}

/// The audit query selects exactly the events its filter admits: its
/// conditions and their bound values pair up, and an event meets every
/// condition if and only if it matches each criterion the filter sets, with
/// its creation time at or after the start and at or before the end.
pub proof fn lemma_query_selects_admitted_events(f: StoredAuditFilter, row: AuditRow)
    ensures
        condition_texts(f).len() == condition_params(f).len(),
        all_conditions_hold(condition_texts(f), condition_params(f), row) == filter_admits(f, row),
{
    reveal_strlit("id = ?");
    reveal_strlit("actor_id = ?");
    reveal_strlit("tool_id = ?");
    reveal_strlit("decision = ?");
    reveal_strlit("profile_id = ?");
    reveal_strlit("classification = ?");
    reveal_strlit("created_at_epoch_ms >= ?");
    reveal_strlit("created_at_epoch_ms <= ?");
    assert("actor_id = ?"@ != "id = ?"@) by { assert("actor_id = ?"@.len() != "id = ?"@.len()); }
    assert("tool_id = ?"@ != "id = ?"@) by { assert("tool_id = ?"@.len() != "id = ?"@.len()); }
    assert("tool_id = ?"@ != "actor_id = ?"@) by { assert("tool_id = ?"@.len() != "actor_id = ?"@.len()); }
    assert("decision = ?"@ != "id = ?"@) by { assert("decision = ?"@.len() != "id = ?"@.len()); }
    assert("decision = ?"@ != "actor_id = ?"@) by { assert("decision = ?"@[0] != "actor_id = ?"@[0]); }
    assert("decision = ?"@ != "tool_id = ?"@) by { assert("decision = ?"@.len() != "tool_id = ?"@.len()); }
    assert("profile_id = ?"@ != "id = ?"@) by { assert("profile_id = ?"@.len() != "id = ?"@.len()); }
    assert("profile_id = ?"@ != "actor_id = ?"@) by { assert("profile_id = ?"@.len() != "actor_id = ?"@.len()); }
    assert("profile_id = ?"@ != "tool_id = ?"@) by { assert("profile_id = ?"@.len() != "tool_id = ?"@.len()); }
    assert("profile_id = ?"@ != "decision = ?"@) by { assert("profile_id = ?"@.len() != "decision = ?"@.len()); }
    assert("classification = ?"@ != "id = ?"@) by { assert("classification = ?"@.len() != "id = ?"@.len()); }
    assert("classification = ?"@ != "actor_id = ?"@) by { assert("classification = ?"@.len() != "actor_id = ?"@.len()); }
    assert("classification = ?"@ != "tool_id = ?"@) by { assert("classification = ?"@.len() != "tool_id = ?"@.len()); }
    assert("classification = ?"@ != "decision = ?"@) by { assert("classification = ?"@.len() != "decision = ?"@.len()); }
    assert("classification = ?"@ != "profile_id = ?"@) by { assert("classification = ?"@.len() != "profile_id = ?"@.len()); }
    assert("created_at_epoch_ms >= ?"@ != "id = ?"@) by { assert("created_at_epoch_ms >= ?"@.len() != "id = ?"@.len()); }
    assert("created_at_epoch_ms >= ?"@ != "actor_id = ?"@) by { assert("created_at_epoch_ms >= ?"@.len() != "actor_id = ?"@.len()); }
    assert("created_at_epoch_ms >= ?"@ != "tool_id = ?"@) by { assert("created_at_epoch_ms >= ?"@.len() != "tool_id = ?"@.len()); }
    assert("created_at_epoch_ms >= ?"@ != "decision = ?"@) by { assert("created_at_epoch_ms >= ?"@.len() != "decision = ?"@.len()); }
    assert("created_at_epoch_ms >= ?"@ != "profile_id = ?"@) by { assert("created_at_epoch_ms >= ?"@.len() != "profile_id = ?"@.len()); }
    assert("created_at_epoch_ms >= ?"@ != "classification = ?"@) by { assert("created_at_epoch_ms >= ?"@.len() != "classification = ?"@.len()); }
    assert("created_at_epoch_ms <= ?"@ != "id = ?"@) by { assert("created_at_epoch_ms <= ?"@.len() != "id = ?"@.len()); }
    assert("created_at_epoch_ms <= ?"@ != "actor_id = ?"@) by { assert("created_at_epoch_ms <= ?"@.len() != "actor_id = ?"@.len()); }
    assert("created_at_epoch_ms <= ?"@ != "tool_id = ?"@) by { assert("created_at_epoch_ms <= ?"@.len() != "tool_id = ?"@.len()); }
    assert("created_at_epoch_ms <= ?"@ != "decision = ?"@) by { assert("created_at_epoch_ms <= ?"@.len() != "decision = ?"@.len()); }
    assert("created_at_epoch_ms <= ?"@ != "profile_id = ?"@) by { assert("created_at_epoch_ms <= ?"@.len() != "profile_id = ?"@.len()); }
    assert("created_at_epoch_ms <= ?"@ != "classification = ?"@) by { assert("created_at_epoch_ms <= ?"@.len() != "classification = ?"@.len()); }
    assert("created_at_epoch_ms <= ?"@ != "created_at_epoch_ms >= ?"@) by { assert("created_at_epoch_ms <= ?"@[20] != "created_at_epoch_ms >= ?"@[20]); }
    let e0 = Seq::<Seq<char>>::empty();
    let q0 = Seq::<SqlParamView>::empty();
    let c1 = opt_push(e0, f.id is Some, "id = ?"@);
    let p1 = opt_push(q0, f.id is Some, SqlParamView::Int(f.id->0));
    lemma_push_condition(e0, q0, f.id is Some, "id = ?"@, SqlParamView::Int(f.id->0), row);
    let c2 = opt_push(c1, f.actor_id is Some, "actor_id = ?"@);
    let p2 = opt_push(p1, f.actor_id is Some, SqlParamView::Text(f.actor_id->0@));
    lemma_push_condition(c1, p1, f.actor_id is Some, "actor_id = ?"@, SqlParamView::Text(f.actor_id->0@), row);
    let c3 = opt_push(c2, f.tool_id is Some, "tool_id = ?"@);
    let p3 = opt_push(p2, f.tool_id is Some, SqlParamView::Text(f.tool_id->0@));
    lemma_push_condition(c2, p2, f.tool_id is Some, "tool_id = ?"@, SqlParamView::Text(f.tool_id->0@), row);
    let c4 = opt_push(c3, f.decision is Some, "decision = ?"@);
    let p4 = opt_push(p3, f.decision is Some, SqlParamView::Text(f.decision->0@));
    lemma_push_condition(c3, p3, f.decision is Some, "decision = ?"@, SqlParamView::Text(f.decision->0@), row);
    let c5 = opt_push(c4, f.profile_id is Some, "profile_id = ?"@);
    let p5 = opt_push(p4, f.profile_id is Some, SqlParamView::Text(f.profile_id->0@));
    lemma_push_condition(c4, p4, f.profile_id is Some, "profile_id = ?"@, SqlParamView::Text(f.profile_id->0@), row);
    let c6 = opt_push(c5, f.classification is Some, "classification = ?"@);
    let p6 = opt_push(p5, f.classification is Some, SqlParamView::Text(f.classification->0@));
    lemma_push_condition(c5, p5, f.classification is Some, "classification = ?"@, SqlParamView::Text(f.classification->0@), row);
    let c7 = opt_push(c6, f.start_epoch_ms is Some, "created_at_epoch_ms >= ?"@);
    let p7 = opt_push(p6, f.start_epoch_ms is Some, SqlParamView::Int(f.start_epoch_ms->0));
    lemma_push_condition(c6, p6, f.start_epoch_ms is Some, "created_at_epoch_ms >= ?"@, SqlParamView::Int(f.start_epoch_ms->0), row);
    lemma_push_condition(c7, p7, f.end_epoch_ms is Some, "created_at_epoch_ms <= ?"@, SqlParamView::Int(f.end_epoch_ms->0), row);
    assert(all_conditions_hold(e0, q0, row));
    assert(condition_holds("id = ?"@, SqlParamView::Int(f.id->0), row) == (row.id == f.id->0));
    assert(condition_holds("actor_id = ?"@, SqlParamView::Text(f.actor_id->0@), row) == (row.actor_id == f.actor_id->0@));
    assert(condition_holds("tool_id = ?"@, SqlParamView::Text(f.tool_id->0@), row) == (row.tool_id == f.tool_id->0@));
    assert(condition_holds("decision = ?"@, SqlParamView::Text(f.decision->0@), row) == (row.decision == f.decision->0@));
    assert(condition_holds("profile_id = ?"@, SqlParamView::Text(f.profile_id->0@), row)
        == (row.profile_id == Some(f.profile_id->0@)));
    assert(condition_holds("classification = ?"@, SqlParamView::Text(f.classification->0@), row)
        == (row.classification == Some(f.classification->0@)));
    assert(condition_holds("created_at_epoch_ms >= ?"@, SqlParamView::Int(f.start_epoch_ms->0), row)
        == (row.created_at_epoch_ms >= f.start_epoch_ms->0));
    assert(condition_holds("created_at_epoch_ms <= ?"@, SqlParamView::Int(f.end_epoch_ms->0), row)
        == (row.created_at_epoch_ms <= f.end_epoch_ms->0));
}

} // verus!
