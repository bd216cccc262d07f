//! Internal storage bookkeeping: legacy-import provenance, the one-shot import
//! of legacy RPC services, and the runtime-state reset.
use vstd::prelude::*;
use crate::error::opt_view;
use crate::text::{cat, cat3, str_eq, views};

verus! {

/// `uuid::Uuid::new_v4().to_string()`: a fresh random UUID's hyphenated
/// lowercase text; which UUID it is, is left open.
#[verifier::external_body]
fn random_uuid_text() -> (r: String)
    ensures
        exists|id: u128| r@ == crate::hooks::spec_uuid_text(id),
{
    uuid::Uuid::new_v4().to_string()
}

/// A provenance record of one imported legacy source.
#[derive(Debug)]
pub struct LegacyImport {
    pub id: String,
    pub source_path: String,
    pub source_hash: String,
    pub imported_at: String,
    pub record_count: i32,
    pub domain: String,
    pub status: String,
    pub error_message: Option<String>,
}

impl LegacyImport {
    /// A completed import record for a source, with a fresh random id, no
    /// timestamp yet and no records counted.
    pub fn new(source_path: String, domain: String, source_hash: String) -> (r: LegacyImport)
        ensures
            r.source_path@ == source_path@,
            r.domain@ == domain@,
            r.source_hash@ == source_hash@,
            r.imported_at@ == Seq::<char>::empty(),
            r.record_count == 0,
            r.status@ == "completed"@,
            r.error_message is None,
    {
        LegacyImport {
            id: random_uuid_text(),
            source_path,
            domain,
            source_hash,
            imported_at: String::new(),
            record_count: 0,
            status: String::from_str("completed"),
            error_message: None,
        }
    }

    /// Whether the import completed.
    pub fn is_completed(&self) -> (r: bool)
        ensures
            r == (self.status@ == "completed"@),
    {
        str_eq(self.status.as_str(), "completed")
    }

    /// Whether the import failed.
    pub fn is_failed(&self) -> (r: bool)
        ensures
            r == (self.status@ == "failed"@),
    {
        str_eq(self.status.as_str(), "failed")
    }
}

/// The import status of a legacy source.
#[derive(Debug, Clone, Copy, PartialEq, Eq, Structural)]
pub enum ImportStatus {
    Completed,
    Failed,
    NotFound,
}

/// The status of a source given its stored hash and status, if it has a
/// record: a record with another hash counts as completed (the data is
/// already stored); with the same hash, `completed` is completed and any
/// other status failed; without a record there is no status.
pub fn import_status_of(stored: Option<(&str, &str)>, hash: &str) -> (r: Option<ImportStatus>)
    ensures
        match stored {
            None => r is None,
            Some((stored_hash, status)) => r == Some(if stored_hash@ != hash@ {
                ImportStatus::Completed
            } else if status@ == "completed"@ {
                ImportStatus::Completed
            } else {
                ImportStatus::Failed
            }),
        },
{
    match stored {
        None => None,
        Some((stored_hash, status)) => {
            if !str_eq(stored_hash, hash) {
                Some(ImportStatus::Completed)
            } else if str_eq(status, "completed") {
                Some(ImportStatus::Completed)
            } else {
                Some(ImportStatus::Failed)
            }
        },
    }
}

/// The record that notes a failed import: the existing record of the source
/// marked failed with the error, or a new record of the source and domain
/// with no hash, marked the same way.
pub fn failed_import_record(existing: Option<LegacyImport>, source_path: &str, domain: &str, error: &str) -> (r: LegacyImport)
    ensures
        r.status@ == "failed"@,
        opt_view(r.error_message) == Some(error@),
        match existing {
            Some(e) => r.id == e.id && r.source_path == e.source_path && r.source_hash == e.source_hash
                && r.imported_at == e.imported_at && r.record_count == e.record_count && r.domain == e.domain,
            None => r.source_path@ == source_path@ && r.domain@ == domain@ && r.source_hash@ == Seq::<char>::empty()
                && r.record_count == 0,
        },
{
    let mut import = match existing {
        Some(e) => e,
        None => LegacyImport::new(String::from_str(source_path), String::from_str(domain), String::new()),
    };
    import.status = String::from_str("failed");
    import.error_message = Some(String::from_str(error));
    import
}

/// The records read back from a query: all of them, or, if any row could not
/// be read, the error of the last such row.
pub fn collect_rows<T, E>(rows: Vec<Result<T, E>>) -> (r: Result<Vec<T>, E>)
    ensures
        (forall|i: int| 0 <= i < rows.len() ==> rows@[i] is Ok) ==> (r matches Ok(v) && v.len() == rows.len()
            && forall|i: int| 0 <= i < rows.len() ==> rows@[i] == Ok::<T, E>(#[trigger] v@[i])),
        (exists|i: int| 0 <= i < rows.len() && rows@[i] is Err) ==> (r matches Err(e) && exists|i: int|
            0 <= i < rows.len() && rows@[i] == Err::<T, E>(e) && forall|j: int| i < j < rows.len() ==> rows@[j] is Ok),
{
    let ghost all = rows@;
    let mut out: Vec<T> = Vec::new();
    let mut last_err: Option<E> = None;
    let mut last_at: Ghost<int> = Ghost(-1);
    let mut rest = rows;
    let mut taken: usize = 0;
    let n = rest.len();
    while taken < n
        invariant
            taken <= n,
            n == all.len(),
            rest@ == all.subrange(taken as int, n as int),
            last_err is None ==> out.len() == taken && forall|k: int| 0 <= k < taken ==> all[k] == Ok::<T, E>(#[trigger] out@[k]),
            last_err is None ==> forall|k: int| 0 <= k < taken ==> all[k] is Ok,
            last_err matches Some(e) ==> 0 <= last_at@ < taken && all[last_at@] == Err::<T, E>(e)
                && forall|j: int| last_at@ < j < taken ==> all[j] is Ok,
        decreases n - taken,
    {
        let item = rest.remove(0);
        assert(rest@ =~= all.subrange(taken + 1, n as int));
        match item {
            Ok(v) => {
                if last_err.is_none() {
                    out.push(v);
                }
            },
            Err(e) => {
                last_err = Some(e);
                last_at = Ghost(taken as int);
            },
        }
        taken = taken + 1;
    }
    match last_err {
        Some(e) => Err(e),
        None => Ok(out),
    }
}

/// A non-fatal problem met while importing.
#[derive(Debug)]
pub struct ImportWarning {
    pub source: String,
    pub message: String,
}

/// What a legacy import did.
#[derive(Debug)]
pub struct ImportResult {
    pub rpc_services_imported: bool,
    pub warnings: Vec<ImportWarning>,
}

impl ImportResult {
    /// Nothing imported, no warnings.
    pub fn new() -> (r: ImportResult)
        ensures
            !r.rpc_services_imported,
            r.warnings.len() == 0,
    {
        ImportResult { rpc_services_imported: false, warnings: Vec::new() }
    }

    /// Whether anything was imported.
    pub fn any_imported(&self) -> (r: bool)
        ensures
            r == self.rpc_services_imported,
    {
        self.rpc_services_imported
    }

    /// Whether there were warnings.
    pub fn has_warnings(&self) -> (r: bool)
        ensures
            r == (self.warnings.len() > 0),
    {
        self.warnings.len() > 0
    }

    /// Notes how importing the services of `config.json` went: success marks
    /// the services imported; a failure becomes a warning about `config.json`.
    pub fn record_rpc_import(&mut self, outcome: Result<(), String>)
        ensures
            match outcome {
                Ok(()) => final(self).rpc_services_imported && final(self).warnings@ == old(self).warnings@,
                Err(e) => final(self).rpc_services_imported == old(self).rpc_services_imported
                    && final(self).warnings.len() == old(self).warnings.len() + 1
                    && final(self).warnings@.drop_last() == old(self).warnings@
                    && final(self).warnings@.last().source@ == "config.json"@
                    && final(self).warnings@.last().message@ == "import failed: "@ + e@,
            },
    {
        match outcome {
            Ok(()) => {
                self.rpc_services_imported = true;
            },
            Err(e) => {
                let ghost before = self.warnings@;
                self.warnings.push(ImportWarning {
                    source: String::from_str("config.json"),
                    message: cat("import failed: ", e.as_str()),
                });
                assert(self.warnings@.drop_last() =~= before);
            },
        }
    }

    /// Notes how backing up `config.json` went: a failure becomes a warning about the backup.
    pub fn record_backup(&mut self, outcome: Result<(), String>)
        ensures
            final(self).rpc_services_imported == old(self).rpc_services_imported,
            match outcome {
                Ok(()) => final(self).warnings@ == old(self).warnings@,
                Err(e) => final(self).warnings.len() == old(self).warnings.len() + 1
                    && final(self).warnings@.drop_last() == old(self).warnings@
                    && final(self).warnings@.last().source@ == "backup"@
                    && final(self).warnings@.last().message@ == "backup failed: "@ + e@,
            },
    {
        if let Err(e) = outcome {
            let ghost before = self.warnings@;
            self.warnings.push(ImportWarning { source: String::from_str("backup"), message: cat("backup failed: ", e.as_str()) });
            assert(self.warnings@.drop_last() =~= before);
        }
    }
}

/// Whether `config.json` still needs importing: it exists and no completed
/// import of it is recorded.
pub fn should_import_config_json(config_exists: bool, imported_sources: &Vec<String>) -> (r: bool)
    ensures
        r == (config_exists && !views(imported_sources@).contains("config.json"@)),
{
    if !config_exists {
        return false;
    }
    let mut i: usize = 0;
    while i < imported_sources.len()
        invariant
            i <= imported_sources.len(),
            forall|k: int| 0 <= k < i ==> imported_sources@[k]@ != "config.json"@,
        decreases imported_sources.len() - i,
    {
        if str_eq(imported_sources[i].as_str(), "config.json") {
            assert(views(imported_sources@)[i as int] == "config.json"@);
            return false;
        }
        i = i + 1;
    }
    assert(!views(imported_sources@).contains("config.json"@)) by {
        if views(imported_sources@).contains("config.json"@) {
            let k = choose|k: int| 0 <= k < views(imported_sources@).len() && views(imported_sources@)[k] == "config.json"@;
            assert(imported_sources@[k]@ == "config.json"@);
        }
    }
    true
}

/// One RPC service as the legacy `config.json` describes it.
#[derive(Debug)]
pub struct LegacyRpcService {
    pub enabled: Option<bool>,
    pub command: Option<String>,
    pub args: Option<Vec<String>>,
    pub env: Option<Vec<(String, String)>>,
    pub timeout_ms: Option<i64>,
}

/// The rows that store one imported service.
#[derive(Debug)]
pub struct ServiceImportRows {
    pub socket_id: String,
    pub enabled: i32,
    pub command: Option<String>,
    pub startup_timeout_ms: Option<i64>,
    /// Each argument with its position.
    pub args: Vec<(i32, String)>,
    pub env: Vec<(String, String)>,
}

/// The rows that import a legacy service, unless a service with that socket
/// id is already stored: enabled unless it says otherwise, its command and
/// time limit, its arguments numbered from zero, and its environment.
pub fn plan_service_import(socket_id: &str, service: &LegacyRpcService, already_stored: bool) -> (r: Option<ServiceImportRows>)
    requires
        service.args matches Some(a) ==> a.len() <= i32::MAX,
    ensures
        already_stored ==> r is None,
        !already_stored ==> (r matches Some(rows) && {
            &&& rows.socket_id@ == socket_id@
            &&& rows.enabled == (if service.enabled == Some(false) { 0i32 } else { 1i32 })
            &&& opt_view(rows.command) == opt_view(service.command)
            &&& rows.startup_timeout_ms == service.timeout_ms
            &&& match service.args {
                Some(a) => rows.args.len() == a.len() && forall|i: int| 0 <= i < a.len() ==> (#[trigger] rows.args@[i]).0 == i && rows.args@[i].1@ == a@[i]@,
                None => rows.args.len() == 0,
            }
            &&& match service.env {
                Some(e) => rows.env.len() == e.len() && forall|i: int| 0 <= i < e.len() ==> (#[trigger] rows.env@[i]).0@ == e@[i].0@ && rows.env@[i].1@ == e@[i].1@,
                None => rows.env.len() == 0,
            }
        }),
{
    if already_stored {
        return None;
    }
    let enabled: i32 = match service.enabled {
        Some(false) => 0,
        _ => 1,
    };
    let mut args: Vec<(i32, String)> = Vec::new();
    if let Some(a) = &service.args {
        let mut i: usize = 0;
        while i < a.len()
            invariant
                i <= a.len(),
                a.len() <= i32::MAX,
                args.len() == i,
                forall|k: int| 0 <= k < i ==> (#[trigger] args@[k]).0 == k && args@[k].1@ == a@[k]@,
            decreases a.len() - i,
        {
            args.push((i as i32, a[i].clone()));
            i = i + 1;
        }
    }
    let mut env: Vec<(String, String)> = Vec::new();
    if let Some(e) = &service.env {
        let mut i: usize = 0;
        while i < e.len()
            invariant
                i <= e.len(),
                env.len() == i,
                forall|k: int| 0 <= k < i ==> (#[trigger] env@[k]).0@ == e@[k].0@ && env@[k].1@ == e@[k].1@,
            decreases e.len() - i,
        {
            env.push((e[i].0.clone(), e[i].1.clone()));
            i = i + 1;
        }
    }
    Some(ServiceImportRows {
        socket_id: String::from_str(socket_id),
        enabled,
        command: crate::error::opt_copy(&service.command),
        startup_timeout_ms: service.timeout_ms,
        args,
        env,
    })
}

/// The tables a runtime-state reset empties, in order.
pub open spec fn state_tables() -> Seq<Seq<char>> {
    seq![
        "st_sessions"@, "st_session_tabs"@, "st_query_history"@, "st_saved_query_folders"@,
        "st_saved_queries"@, "st_recent_items"@, "st_ui_state"@, "st_schema_cache"@, "st_event_log"@,
    ]
}

/// What a runtime-state reset did.
#[derive(Debug)]
pub struct ResetResult {
    pub state_db_path: String,
    pub tables_cleared: Vec<String>,
    pub rows_deleted: usize,
    pub errors: Vec<String>,
}

impl Default for ResetResult {
    fn default() -> (r: ResetResult)
        ensures
            r.state_db_path@ == Seq::<char>::empty(),
            r.tables_cleared.len() == 0,
            r.rows_deleted == 0,
            r.errors.len() == 0,
    {
        ResetResult { state_db_path: String::new(), tables_cleared: Vec::new(), rows_deleted: 0, errors: Vec::new() }
    }
}

impl ResetResult {
    /// Whether anything went wrong.
    pub fn has_errors(&self) -> (r: bool)
        ensures
            r == (self.errors.len() > 0),
    {
        self.errors.len() > 0
    }
}

/// The statement run for a state table, `DELETE FROM <table>`, gave `outcome`.
pub open spec fn deleted<X: Fn(&str) -> Result<usize, String>>(execute: X, table: Seq<char>, outcome: Result<usize, String>) -> bool {
    exists|sql: &str| sql@ == "DELETE FROM "@ + table && #[trigger] execute.ensures((sql,), outcome)
}

/// The sum of row counts, saturating at the largest `usize`.
pub open spec fn saturating_total(counts: Seq<usize>) -> int
    decreases counts.len(),
{
    if counts.len() == 0 {
        0
    } else {
        let t = saturating_total(counts.drop_last()) + counts.last();
        if t > usize::MAX {
            usize::MAX as int
        } else {
            t
        }
    }
}

/// After the transaction began: the state tables emptied in order until a
/// statement failed, the rows they held counted; a failed statement is
/// recorded naming its table, nothing more runs and the transaction is
/// rolled back (`finish(false)`), so no clear is kept; only after every
/// table was emptied is the transaction committed (`finish(true)`) and a
/// failed commit recorded.
pub open spec fn clears_in_order<X: Fn(&str) -> Result<usize, String>, F: FnOnce(bool) -> Result<(), String>>(
    execute: X,
    finish: F,
    r: ResetResult,
) -> bool {
    let n = r.tables_cleared.len();
    &&& n <= state_tables().len()
    &&& views(r.tables_cleared@) == state_tables().take(n as int)
    &&& exists|counts: Seq<usize>| counts.len() == n
        && (forall|i: int| 0 <= i < n ==> deleted(execute, state_tables()[i], Ok(#[trigger] counts[i])))
        && r.rows_deleted == saturating_total(counts)
    &&& if n < state_tables().len() {
        &&& exists|e: String| deleted(execute, state_tables()[n as int], Err(e))
            && views(r.errors@) == seq![state_tables()[n as int] + ": "@ + e@]
        &&& exists|o: Result<(), String>| #[trigger] finish.ensures((false,), o)
    } else {
        exists|c: Result<(), String>| #[trigger] finish.ensures((true,), c) && match c {
            Ok(_) => r.errors.len() == 0,
            Err(e) => views(r.errors@) == seq!["commit failed: "@ + e@],
        }
    }
}

/// Empties the runtime-state tables in one transaction: `begin` opens it,
/// `execute` runs one `DELETE` statement and reports the rows it removed,
/// `finish` ends it, committing when given `true` and rolling back when given
/// `false`; it is called once. Tables are emptied in order; the first failure
/// stops the reset, is recorded naming the table, and rolls the transaction
/// back, so the clears succeed or fail together. Only the `DELETE` statements
/// of the state tables run: durable configuration is not touched.
pub fn clear_state_db_with<B, X, F>(state_db_path: String, begin: B, execute: X, finish: F) -> (r: ResetResult)
    where
        B: FnOnce() -> Result<(), String>,
        X: Fn(&str) -> Result<usize, String>,
        F: FnOnce(bool) -> Result<(), String>,
    requires
        begin.requires(()),
        forall|sql: &str| execute.requires((sql,)),
        forall|commit: bool| finish.requires((commit,)),
    ensures
        r.state_db_path@ == state_db_path@,
        exists|b: Result<(), String>| #[trigger] begin.ensures((), b) && match b {
            Err(e) => r.tables_cleared.len() == 0 && r.rows_deleted == 0
                && views(r.errors@) == seq!["cannot start transaction: "@ + e@],
            Ok(_) => clears_in_order(execute, finish, r),
        },
{
    let mut result = ResetResult { state_db_path, tables_cleared: Vec::new(), rows_deleted: 0, errors: Vec::new() };
    let began = begin();
    let ghost began_copy = began;
    assert(begin.ensures((), began_copy));
    match began {
        Ok(()) => {
            assert(began_copy is Ok);
        },
        Err(e) => {
            let message = cat("cannot start transaction: ", e.as_str());
            result.errors.push(message);
            assert(views(result.errors@) =~= seq!["cannot start transaction: "@ + e@]);
            return result;
        },
    }
    let tables: Vec<&str> = vec![
        "st_sessions", "st_session_tabs", "st_query_history", "st_saved_query_folders",
        "st_saved_queries", "st_recent_items", "st_ui_state", "st_schema_cache", "st_event_log",
    ];
    assert(crate::text::str_views(tables@) =~= state_tables());
    let ghost mut counts: Seq<usize> = Seq::empty();
    let mut i: usize = 0;
    while i < tables.len()
        invariant
            i <= tables.len(),
            tables.len() == state_tables().len(),
            crate::text::str_views(tables@) == state_tables(),
            forall|sql: &str| execute.requires((sql,)),
            forall|commit: bool| finish.requires((commit,)),
            result.state_db_path@ == state_db_path@,
            result.tables_cleared.len() == i,
            views(result.tables_cleared@) == state_tables().take(i as int),
            result.errors.len() == 0,
            counts.len() == i,
            forall|j: int| 0 <= j < i ==> deleted(execute, state_tables()[j], Ok(#[trigger] counts[j])),
            result.rows_deleted == saturating_total(counts),
            began_copy is Ok,
            begin.ensures((), began_copy),
        decreases tables.len() - i,
    {
        let table = tables[i];
        assert(crate::text::str_views(tables@)[i as int] == table@);
        let sql = cat("DELETE FROM ", table);
        let sql_str = sql.as_str();
        let outcome = execute(sql_str);
        let ghost outcome_copy = outcome;
        assert(execute.ensures((sql_str,), outcome_copy));
        assert(deleted(execute, state_tables()[i as int], outcome_copy));
        match outcome {
            Ok(count) => {
                let ghost before = result.tables_cleared@;
                result.tables_cleared.push(String::from_str(table));
                proof {
                    assert(views(result.tables_cleared@) =~= views(before).push(table@));
                    assert(state_tables().take(i + 1) =~= state_tables().take(i as int).push(table@));
                    let old_counts = counts;
                    counts = counts.push(count);
                    assert(counts.drop_last() =~= old_counts);
                    assert forall|j: int| 0 <= j < i + 1 implies deleted(execute, state_tables()[j], Ok(#[trigger] counts[j])) by {
                        if j < i {
                            assert(counts[j] == old_counts[j]);
                        }
                    }
                }
                result.rows_deleted = if result.rows_deleted > usize::MAX - count { usize::MAX } else { result.rows_deleted + count };
            },
            Err(e) => {
                result.errors.push(cat3(table, ": ", e.as_str()));
                assert(views(result.errors@) =~= seq![state_tables()[i as int] + ": "@ + e@]);
                assert(counts.len() == result.tables_cleared.len()
                    && (forall|j: int| 0 <= j < result.tables_cleared.len() ==> deleted(execute, state_tables()[j], Ok(#[trigger] counts[j])))
                    && result.rows_deleted == saturating_total(counts));
                assert(deleted(execute, state_tables()[result.tables_cleared.len() as int], Err::<usize, String>(e)));
                let rolled_back = finish(false);
                assert(finish.ensures((false,), rolled_back));
                assert(clears_in_order(execute, finish, result));
                return result;
            },
        }
        i = i + 1;
    }
    let committed = finish(true);
    let ghost committed_copy = committed;
    assert(finish.ensures((true,), committed_copy));
    if let Err(e) = committed {
        result.errors.push(cat("commit failed: ", e.as_str()));
        assert(views(result.errors@) =~= seq!["commit failed: "@ + e@]);
    }
    assert(counts.len() == result.tables_cleared.len()
        && (forall|j: int| 0 <= j < result.tables_cleared.len() ==> deleted(execute, state_tables()[j], Ok(#[trigger] counts[j])))
        && result.rows_deleted == saturating_total(counts));
    assert(clears_in_order(execute, finish, result));
    result
}

/// Where the internal storage lives.
#[derive(Debug)]
pub struct StorageRuntime {
    app_db_path: String,
}

impl StorageRuntime {
    /// A runtime over the application database at this path.
    pub fn with_app_db_path(app_db_path: String) -> (r: StorageRuntime)
        ensures
            r.app_db_path_view() == app_db_path@,
    {
        StorageRuntime { app_db_path }
    }

    pub closed spec fn app_db_path_view(&self) -> Seq<char> {
        self.app_db_path@
    }

    /// The path of the application database.
    pub fn app_db_path(&self) -> (r: &str)
        ensures
            r@ == self.app_db_path_view(),
    {
        self.app_db_path.as_str()
    }
}

/// Where the legacy configuration file and the unified database live.
#[derive(Debug, Clone)]
pub struct LegacyPaths {
    pub config_json: String,
    pub unified_db: String,
}

} // verus!
