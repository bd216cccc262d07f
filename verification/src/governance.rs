//! MCP governance: the v1 tool catalogue, execution classes, trusted clients
//! and connection policy assignments, and the authorization decision.
use vstd::prelude::*;
use crate::error::opt_view;
use crate::keyed::{KeyedSet, Keyed, keys_sorted};
use crate::text::{cat, spec_starts_with, spec_trim, str_in, str_views, trim};

verus! {

/// The tools the v1 MCP server offers.
pub open spec fn canonical_v1_tools() -> Seq<Seq<char>> {
    seq![
        "list_connections"@, "get_connection"@, "get_connection_metadata"@, "list_databases"@,
        "list_schemas"@, "list_tables"@, "list_collections"@, "describe_object"@, "read_query"@,
        "explain_query"@, "preview_mutation"@, "list_scripts"@, "get_script"@, "create_script"@,
        "update_script"@, "delete_script"@, "run_script"@, "request_execution"@,
        "list_pending_executions"@, "get_pending_execution"@, "approve_execution"@,
        "reject_execution"@, "query_audit_logs"@, "get_audit_entry"@, "export_audit_logs"@,
    ]
}

/// The tools planned but held back from v1.
pub open spec fn deferred_v1_tools() -> Seq<Seq<char>> {
    seq!["estimate_query_cost"@, "get_execution_status"@]
}

/// Whether a tool is offered in v1.
pub fn is_canonical_v1_tool(tool_id: &str) -> (r: bool)
    ensures
        r == canonical_v1_tools().contains(tool_id@),
{
    let tools: Vec<&str> = vec![
        "list_connections", "get_connection", "get_connection_metadata", "list_databases",
        "list_schemas", "list_tables", "list_collections", "describe_object", "read_query",
        "explain_query", "preview_mutation", "list_scripts", "get_script", "create_script",
        "update_script", "delete_script", "run_script", "request_execution",
        "list_pending_executions", "get_pending_execution", "approve_execution",
        "reject_execution", "query_audit_logs", "get_audit_entry", "export_audit_logs",
    ];
    assert(str_views(tools@) =~= canonical_v1_tools());
    str_in(tool_id, &tools)
}

/// Whether a tool is held back from v1.
pub fn is_deferred_v1_tool(tool_id: &str) -> (r: bool)
    ensures
        r == deferred_v1_tools().contains(tool_id@),
{
    let tools: Vec<&str> = vec!["estimate_query_cost", "get_execution_status"];
    assert(str_views(tools@) =~= deferred_v1_tools());
    str_in(tool_id, &tools)
}

/// Why a tool cannot be used in v1.
#[derive(Debug)]
pub enum ToolCatalogError {
    DeferredInV1 { tool: String },
    UnknownTool { tool: String },
}

impl ToolCatalogError {
    /// The error's message.
    pub fn message(&self) -> (r: String)
        ensures
            r@ == match self {
                ToolCatalogError::DeferredInV1 { tool } => "tool not available in v1: "@ + tool@,
                ToolCatalogError::UnknownTool { tool } => "unknown tool: "@ + tool@,
            },
    {
        match self {
            ToolCatalogError::DeferredInV1 { tool } => cat("tool not available in v1: ", tool.as_str()),
            ToolCatalogError::UnknownTool { tool } => cat("unknown tool: ", tool.as_str()),
        }
    }
}

/// Checks that a tool may be used in v1: offered tools pass; deferred and
/// unknown tools are refused, naming the tool.
pub fn validate_v1_tool(tool_id: &str) -> (r: Result<(), ToolCatalogError>)
    ensures
        canonical_v1_tools().contains(tool_id@) ==> r is Ok,
        !canonical_v1_tools().contains(tool_id@) && deferred_v1_tools().contains(tool_id@) ==> (r matches Err(
            ToolCatalogError::DeferredInV1 { tool },
        ) && tool@ == tool_id@),
        !canonical_v1_tools().contains(tool_id@) && !deferred_v1_tools().contains(tool_id@) ==> (r matches Err(
            ToolCatalogError::UnknownTool { tool },
        ) && tool@ == tool_id@),
{
    if is_canonical_v1_tool(tool_id) {
        return Ok(());
    }
    if is_deferred_v1_tool(tool_id) {
        return Err(ToolCatalogError::DeferredInV1 { tool: String::from_str(tool_id) });
    }
    Err(ToolCatalogError::UnknownTool { tool: String::from_str(tool_id) })
}

/// No tool is both offered and deferred in v1.
pub proof fn lemma_catalogues_disjoint(tool: Seq<char>)
    ensures
        !(canonical_v1_tools().contains(tool) && deferred_v1_tools().contains(tool)),
{
    reveal_strlit("estimate_query_cost");
    reveal_strlit("get_execution_status");
    reveal_strlit("list_connections");
    reveal_strlit("get_connection");
    reveal_strlit("get_connection_metadata");
    reveal_strlit("list_databases");
    reveal_strlit("list_schemas");
    reveal_strlit("list_tables");
    reveal_strlit("list_collections");
    reveal_strlit("describe_object");
    reveal_strlit("read_query");
    reveal_strlit("explain_query");
    reveal_strlit("preview_mutation");
    reveal_strlit("list_scripts");
    reveal_strlit("get_script");
    reveal_strlit("create_script");
    reveal_strlit("update_script");
    reveal_strlit("delete_script");
    reveal_strlit("run_script");
    reveal_strlit("request_execution");
    reveal_strlit("list_pending_executions");
    reveal_strlit("get_pending_execution");
    reveal_strlit("approve_execution");
    reveal_strlit("reject_execution");
    reveal_strlit("query_audit_logs");
    reveal_strlit("get_audit_entry");
    reveal_strlit("export_audit_logs");
    if canonical_v1_tools().contains(tool) && deferred_v1_tools().contains(tool) {
        let i = choose|i: int| 0 <= i < canonical_v1_tools().len() && canonical_v1_tools()[i] == tool;
        let j = choose|j: int| 0 <= j < deferred_v1_tools().len() && deferred_v1_tools()[j] == tool;
        assert(canonical_v1_tools()[i].len() == deferred_v1_tools()[j].len());
        assert(canonical_v1_tools()[i][0] == deferred_v1_tools()[j][0]);
        assert(canonical_v1_tools()[i][4] == deferred_v1_tools()[j][4]);
    }
}

/// How much an operation may change, for policy and approvals.
#[derive(Debug, Clone, Copy, PartialEq, Eq, Structural)]
pub enum ExecutionClassification {
    Metadata,
    Read,
    Write,
    Destructive,
    Admin,
}

/// A client allowed to use the MCP server.
#[derive(Debug)]
pub struct TrustedClientDto {
    pub id: String,
    pub name: String,
    pub issuer: Option<String>,
    pub active: bool,
}

pub ghost struct TrustedClientView {
    pub id: Seq<char>,
    pub name: Seq<char>,
    pub issuer: Option<Seq<char>>,
    pub active: bool,
}

impl TrustedClientDto {
    pub open spec fn view(&self) -> TrustedClientView {
        TrustedClientView { id: self.id@, name: self.name@, issuer: opt_view(self.issuer), active: self.active }
    }

    /// A copy with the same view.
    pub fn duplicate(&self) -> (r: TrustedClientDto)
        ensures
            r@ == self@,
    {
        TrustedClientDto {
            id: self.id.clone(),
            name: self.name.clone(),
            issuer: crate::error::opt_copy(&self.issuer),
            active: self.active,
        }
    }
}

impl Keyed for TrustedClientDto {
    open spec fn key_view(&self) -> Seq<char> {
        self.id@
    }

    fn key(&self) -> (r: &str) {
        self.id.as_str()
    }
}

/// Which roles and policies apply to an actor on a connection.
#[derive(Debug)]
pub struct PolicyBinding {
    pub actor_id: String,
    pub role_ids: Vec<String>,
    pub policy_ids: Vec<String>,
}

pub ghost struct PolicyBindingView {
    pub actor_id: Seq<char>,
    pub role_ids: Seq<Seq<char>>,
    pub policy_ids: Seq<Seq<char>>,
}

impl PolicyBinding {
    pub open spec fn view(&self) -> PolicyBindingView {
        PolicyBindingView {
            actor_id: self.actor_id@,
            role_ids: crate::text::views(self.role_ids@),
            policy_ids: crate::text::views(self.policy_ids@),
        }
    }

    /// A copy with the same view.
    pub fn duplicate(&self) -> (r: PolicyBinding)
        ensures
            r@ == self@,
    {
        PolicyBinding {
            actor_id: self.actor_id.clone(),
            role_ids: copy_strings(&self.role_ids),
            policy_ids: copy_strings(&self.policy_ids),
        }
    }
}

/// A copy of a list of strings with the same views.
pub fn copy_strings(v: &Vec<String>) -> (r: Vec<String>)
    ensures
        crate::text::views(r@) == crate::text::views(v@),
{
    let mut out: Vec<String> = Vec::new();
    let mut i: usize = 0;
    while i < v.len()
        invariant
            i <= v.len(),
            out.len() == i,
            forall|j: int| 0 <= j < i ==> (#[trigger] out@[j])@ == v@[j]@,
        decreases v.len() - i,
    {
        out.push(v[i].clone());
        i = i + 1;
    }
    assert(crate::text::views(out@) =~= crate::text::views(v@));
    out
}

/// The policy bindings of one connection.
#[derive(Debug)]
pub struct ConnectionPolicyAssignmentDto {
    pub connection_id: String,
    pub assignments: Vec<PolicyBinding>,
}

pub ghost struct AssignmentView {
    pub connection_id: Seq<char>,
    pub assignments: Seq<PolicyBindingView>,
}

impl ConnectionPolicyAssignmentDto {
    pub open spec fn view(&self) -> AssignmentView {
        AssignmentView {
            connection_id: self.connection_id@,
            assignments: self.assignments@.map_values(|b: PolicyBinding| b@),
        }
    }

    /// A copy with the same view.
    pub fn duplicate(&self) -> (r: ConnectionPolicyAssignmentDto)
        ensures
            r@ == self@,
    {
        let mut out: Vec<PolicyBinding> = Vec::new();
        let mut i: usize = 0;
        while i < self.assignments.len()
            invariant
                i <= self.assignments.len(),
                out.len() == i,
                forall|j: int| 0 <= j < i ==> (#[trigger] out@[j])@ == self.assignments@[j]@,
            decreases self.assignments.len() - i,
        {
            out.push(self.assignments[i].duplicate());
            i = i + 1;
        }
        let r = ConnectionPolicyAssignmentDto { connection_id: self.connection_id.clone(), assignments: out };
        assert(r@.assignments =~= self@.assignments);
        r
    }
}

impl Keyed for ConnectionPolicyAssignmentDto {
    open spec fn key_view(&self) -> Seq<char> {
        self.connection_id@
    }

    fn key(&self) -> (r: &str) {
        self.connection_id.as_str()
    }
}

/// A policy binding scoped to the connection it belongs to.
#[derive(Debug)]
pub struct ConnectionPolicyAssignment {
    pub actor_id: String,
    pub connection_id: String,
    pub role_ids: Vec<String>,
    pub policy_ids: Vec<String>,
}

pub ghost struct ScopedBindingView {
    pub actor_id: Seq<char>,
    pub connection_id: Seq<char>,
    pub role_ids: Seq<Seq<char>>,
    pub policy_ids: Seq<Seq<char>>,
}

impl ConnectionPolicyAssignment {
    pub open spec fn view(&self) -> ScopedBindingView {
        ScopedBindingView {
            actor_id: self.actor_id@,
            connection_id: self.connection_id@,
            role_ids: crate::text::views(self.role_ids@),
            policy_ids: crate::text::views(self.policy_ids@),
        }
    }
}

/// A binding scoped to a connection.
pub open spec fn scoped(connection_id: Seq<char>, b: PolicyBindingView) -> ScopedBindingView {
    ScopedBindingView { actor_id: b.actor_id, connection_id, role_ids: b.role_ids, policy_ids: b.policy_ids }
}

/// The bindings of one connection, scoped to it, in order.
pub open spec fn scoped_bindings(connection_id: Seq<char>, bindings: Seq<PolicyBindingView>) -> Seq<ScopedBindingView>
    decreases bindings.len(),
{
    if bindings.len() == 0 {
        Seq::empty()
    } else {
        scoped_bindings(connection_id, bindings.drop_last()).push(scoped(connection_id, bindings.last()))
    }
}

/// The scoped bindings of a list of assignments, assignment after assignment.
pub open spec fn engine_assignments(assignments: Seq<AssignmentView>) -> Seq<ScopedBindingView>
    decreases assignments.len(),
{
    if assignments.len() == 0 {
        Seq::empty()
    } else {
        engine_assignments(assignments.drop_last()) + scoped_bindings(
            assignments.last().connection_id,
            assignments.last().assignments,
        )
    }
}

/// A pending execution as listed to approvers.
#[derive(Debug)]
pub struct PendingExecutionSummary {
    pub id: String,
    pub actor_id: String,
    pub connection_id: String,
    pub tool_id: String,
    pub classification: ExecutionClassification,
    pub status: String,
    pub created_at_epoch_ms: i64,
}

/// A pending execution with the arguments of the call it holds.
#[derive(Debug)]
pub struct PendingExecutionDetail {
    pub summary: PendingExecutionSummary,
    pub plan: crate::json::JsonValue,
}

/// A filter over audit entries.
#[derive(Debug)]
pub struct AuditQuery {
    pub actor_id: Option<String>,
    pub tool_id: Option<String>,
    pub decision: Option<String>,
    pub start_epoch_ms: Option<i64>,
    pub end_epoch_ms: Option<i64>,
    pub limit: Option<usize>,
}

/// The formats audit entries export to.
#[derive(Debug, Clone, Copy, PartialEq, Eq, Structural)]
pub enum AuditExportFormat {
    Csv,
    Json,
}

/// One recorded authorization decision.
#[derive(Debug)]
pub struct AuditEntry {
    pub id: String,
    pub actor_id: String,
    pub tool_id: String,
    pub decision: String,
    pub reason: Option<String>,
    pub created_at_epoch_ms: i64,
}

/// Why a governance operation failed.
#[derive(Debug)]
pub enum GovernanceError {
    NotFound { resource: String },
    Validation(String),
    Operation(String),
}

pub ghost enum GovernanceErrorView {
    NotFound { resource: Seq<char> },
    Validation(Seq<char>),
    Operation(Seq<char>),
}

impl GovernanceError {
    pub open spec fn view(&self) -> GovernanceErrorView {
        match self {
            GovernanceError::NotFound { resource } => GovernanceErrorView::NotFound { resource: resource@ },
            GovernanceError::Validation(m) => GovernanceErrorView::Validation(m@),
            GovernanceError::Operation(m) => GovernanceErrorView::Operation(m@),
        }
    }

    /// The error's message.
    pub fn message(&self) -> (r: String)
        ensures
            r@ == match self@ {
                GovernanceErrorView::NotFound { resource } => "resource not found: "@ + resource,
                GovernanceErrorView::Validation(m) => "validation error: "@ + m,
                GovernanceErrorView::Operation(m) => "operation failed: "@ + m,
            },
    {
        match self {
            GovernanceError::NotFound { resource } => cat("resource not found: ", resource.as_str()),
            GovernanceError::Validation(m) => cat("validation error: ", m.as_str()),
            GovernanceError::Operation(m) => cat("operation failed: ", m.as_str()),
        }
    }
}

/// A change to governance state that the UI should pick up.
#[derive(Debug)]
pub enum McpRuntimeEvent {
    TrustedClientsUpdated,
    ConnectionPolicyUpdated { connection_id: String },
    PendingExecutionsUpdated,
    AuditAppended,
}

/// The governance state the MCP runtime keeps: trusted clients and
/// connection policy assignments, one per id, and the events not yet drained.
#[derive(Debug)]
pub struct McpRuntime {
    trusted_clients: KeyedSet<TrustedClientDto>,
    connection_policy_assignments: KeyedSet<ConnectionPolicyAssignmentDto>,
    pending_events: Vec<McpRuntimeEvent>,
}

impl McpRuntime {
    /// The trusted clients by id.
    pub closed spec fn clients(&self) -> Map<Seq<char>, TrustedClientDto> {
        self.trusted_clients@
    }

    /// The policy assignments by connection id.
    pub closed spec fn assignments(&self) -> Map<Seq<char>, ConnectionPolicyAssignmentDto> {
        self.connection_policy_assignments@
    }

    /// The events not yet drained, oldest first.
    pub closed spec fn events(&self) -> Seq<McpRuntimeEvent> {
        self.pending_events@
    }

    /// Empty governance state.
    pub fn new() -> (r: McpRuntime)
        ensures
            r.clients() == Map::<Seq<char>, TrustedClientDto>::empty(),
            r.assignments() == Map::<Seq<char>, ConnectionPolicyAssignmentDto>::empty(),
            r.events().len() == 0,
    {
        McpRuntime {
            trusted_clients: KeyedSet::new(),
            connection_policy_assignments: KeyedSet::new(),
            pending_events: Vec::new(),
        }
    }

    /// Adds or replaces a trusted client; its id must not be blank. Records a
    /// clients-updated event.
    pub fn upsert_trusted_client_mut(&mut self, client: TrustedClientDto) -> (r: Result<TrustedClientDto, GovernanceError>)
        ensures
            spec_trim(client.id@).len() == 0 ==> {
                &&& r matches Err(e) && e@ == GovernanceErrorView::Validation("trusted client id must not be empty"@)
                &&& final(self).clients() == old(self).clients()
                &&& final(self).assignments() == old(self).assignments()
                &&& final(self).events() == old(self).events()
            },
            spec_trim(client.id@).len() > 0 ==> {
                &&& r matches Ok(c) && c@ == client@
                &&& final(self).clients().dom() == old(self).clients().dom().insert(client.id@)
                &&& final(self).clients()[client.id@]@ == client@
                &&& forall|k: Seq<char>| k != client.id@ && #[trigger] old(self).clients().dom().contains(k) ==> final(self).clients()[k] == old(self).clients()[k]
                &&& final(self).assignments() == old(self).assignments()
                &&& final(self).events() == old(self).events().push(McpRuntimeEvent::TrustedClientsUpdated)
            },
    {
        let trimmed = trim(client.id.as_str());
        if trimmed.unicode_len() == 0 {
            return Err(GovernanceError::Validation(String::from_str("trusted client id must not be empty")));
        }
        let stored = client.duplicate();
        self.trusted_clients.upsert(stored);
        self.pending_events.push(McpRuntimeEvent::TrustedClientsUpdated);
        Ok(client)
    }

    /// Removes a trusted client, which must exist. Records a clients-updated event.
    pub fn delete_trusted_client_mut(&mut self, client_id: &str) -> (r: Result<(), GovernanceError>)
        ensures
            !old(self).clients().dom().contains(client_id@) ==> {
                &&& r matches Err(e) && e@ == GovernanceErrorView::NotFound { resource: "trusted client "@ + client_id@ }
                &&& final(self).clients() == old(self).clients()
                &&& final(self).events() == old(self).events()
            },
            old(self).clients().dom().contains(client_id@) ==> {
                &&& r is Ok
                &&& final(self).clients() == old(self).clients().remove(client_id@)
                &&& final(self).events() == old(self).events().push(McpRuntimeEvent::TrustedClientsUpdated)
            },
            final(self).assignments() == old(self).assignments(),
    {
        match self.trusted_clients.remove(client_id) {
            None => Err(GovernanceError::NotFound { resource: cat("trusted client ", client_id) }),
            Some(_) => {
                self.pending_events.push(McpRuntimeEvent::TrustedClientsUpdated);
                Ok(())
            },
        }
    }

    /// Stores the policy assignment of a connection, replacing the one stored;
    /// the connection id must not be blank. Records a policy-updated event
    /// naming the connection.
    pub fn save_connection_policy_assignment_mut(
        &mut self,
        assignment: ConnectionPolicyAssignmentDto,
    ) -> (r: Result<ConnectionPolicyAssignmentDto, GovernanceError>)
        ensures
            spec_trim(assignment.connection_id@).len() == 0 ==> {
                &&& r matches Err(e) && e@ == GovernanceErrorView::Validation("connection id must not be empty"@)
                &&& final(self).assignments() == old(self).assignments()
                &&& final(self).events() == old(self).events()
            },
            spec_trim(assignment.connection_id@).len() > 0 ==> {
                &&& r matches Ok(a) && a@ == assignment@
                &&& final(self).assignments() == old(self).assignments().insert(assignment.connection_id@, assignment)
                &&& final(self).events().len() == old(self).events().len() + 1
                &&& forall|i: int| 0 <= i < old(self).events().len() ==> #[trigger] final(self).events()[i] == old(self).events()[i]
                &&& final(self).events().last() matches McpRuntimeEvent::ConnectionPolicyUpdated { connection_id } && connection_id@
                    == assignment.connection_id@
            },
            final(self).clients() == old(self).clients(),
    {
        let trimmed = trim(assignment.connection_id.as_str());
        if trimmed.unicode_len() == 0 {
            return Err(GovernanceError::Validation(String::from_str("connection id must not be empty")));
        }
        let connection_id = assignment.connection_id.clone();
        let returned = assignment.duplicate();
        self.connection_policy_assignments.upsert(assignment);
        self.pending_events.push(McpRuntimeEvent::ConnectionPolicyUpdated { connection_id });
        Ok(returned)
    }

    /// Through shared access the runtime cannot change its trusted clients:
    /// the call fails and says that it needs mutable access.
    pub fn upsert_trusted_client(&self, client: TrustedClientDto) -> (r: Result<TrustedClientDto, GovernanceError>)
        ensures
            r matches Err(e) && e@ == GovernanceErrorView::Operation(
                "upsert_trusted_client requires mutable runtime access"@,
            ),
    {
        Err(GovernanceError::Operation(String::from_str("upsert_trusted_client requires mutable runtime access")))
    }

    /// Through shared access the runtime cannot remove a trusted client.
    pub fn delete_trusted_client(&self, client_id: &str) -> (r: Result<(), GovernanceError>)
        ensures
            r matches Err(e) && e@ == GovernanceErrorView::Operation(
                "delete_trusted_client requires mutable runtime access"@,
            ),
    {
        Err(GovernanceError::Operation(String::from_str("delete_trusted_client requires mutable runtime access")))
    }

    /// Through shared access the runtime cannot store a policy assignment.
    pub fn save_connection_policy_assignment(&self, assignment: ConnectionPolicyAssignmentDto) -> (r: Result<
        ConnectionPolicyAssignmentDto,
        GovernanceError,
    >)
        ensures
            r matches Err(e) && e@ == GovernanceErrorView::Operation(
                "save_connection_policy_assignment requires mutable runtime access"@,
            ),
    {
        Err(GovernanceError::Operation(String::from_str("save_connection_policy_assignment requires mutable runtime access")))
    }

    /// The trusted clients in id order.
    pub fn list_trusted_clients(&self) -> (r: Vec<TrustedClientDto>)
        ensures
            forall|i: int, j: int| 0 <= i < j < r.len() ==> crate::text::seq_lt(#[trigger] r@[i].id@, #[trigger] r@[j].id@),
            forall|i: int| 0 <= i < r.len() ==> self.clients().dom().contains((#[trigger] r@[i]).id@) && self.clients()[r@[i].id@]@ == r@[i]@,
            forall|k: Seq<char>| #[trigger] self.clients().dom().contains(k) ==> exists|i: int| 0 <= i < r.len() && r@[i].id@ == k,
    {
        let items = self.trusted_clients.items();
        let mut out: Vec<TrustedClientDto> = Vec::new();
        let mut i: usize = 0;
        while i < items.len()
            invariant
                i <= items.len(),
                out.len() == i,
                forall|j: int| 0 <= j < i ==> (#[trigger] out@[j])@ == items@[j]@,
            decreases items.len() - i,
        {
            out.push(items[i].duplicate());
            i = i + 1;
        }
        assert forall|a: int, b: int| 0 <= a < b < out.len() implies crate::text::seq_lt(#[trigger] out@[a].id@, #[trigger] out@[b].id@) by {
            assert(out@[a].id@ == items@[a].key_view() && out@[b].id@ == items@[b].key_view());
        }
        assert forall|k: Seq<char>| #[trigger] self.clients().dom().contains(k) implies exists|i: int| 0 <= i < out.len() && out@[i].id@ == k by {
            let i = choose|i: int| 0 <= i < items.len() && items@[i].key_view() == k;
            assert(out@[i].id@ == k);
        }
        out
    }

    /// The stored policy assignments in connection id order.
    pub closed spec fn assignment_list(&self) -> Seq<ConnectionPolicyAssignmentDto> {
        self.connection_policy_assignments.ordered()
    }

    /// The policy assignments in connection id order.
    pub fn list_connection_policy_assignments(&self) -> (r: Vec<ConnectionPolicyAssignmentDto>)
        ensures
            r@.map_values(|a: ConnectionPolicyAssignmentDto| a@) == self.assignment_list().map_values(
                |a: ConnectionPolicyAssignmentDto| a@,
            ),
            forall|i: int, j: int| 0 <= i < j < r.len() ==> crate::text::seq_lt(#[trigger] r@[i].connection_id@, #[trigger] r@[j].connection_id@),
            forall|i: int| 0 <= i < r.len() ==> self.assignments().dom().contains((#[trigger] r@[i]).connection_id@)
                && self.assignments()[r@[i].connection_id@]@ == r@[i]@,
            forall|k: Seq<char>| #[trigger] self.assignments().dom().contains(k) ==> exists|i: int| 0 <= i < r.len() && r@[i].connection_id@ == k,
    {
        let items = self.connection_policy_assignments.items();
        let mut out: Vec<ConnectionPolicyAssignmentDto> = Vec::new();
        let mut i: usize = 0;
        while i < items.len()
            invariant
                i <= items.len(),
                out.len() == i,
                forall|j: int| 0 <= j < i ==> (#[trigger] out@[j])@ == items@[j]@,
            decreases items.len() - i,
        {
            out.push(items[i].duplicate());
            i = i + 1;
        }
        assert(out@.map_values(|a: ConnectionPolicyAssignmentDto| a@) =~= items@.map_values(|a: ConnectionPolicyAssignmentDto| a@));
        assert forall|a: int, b: int| 0 <= a < b < out.len() implies crate::text::seq_lt(#[trigger] out@[a].connection_id@, #[trigger] out@[b].connection_id@) by {
            assert(out@[a].connection_id@ == items@[a].key_view() && out@[b].connection_id@ == items@[b].key_view());
        }
        assert forall|k: Seq<char>| #[trigger] self.assignments().dom().contains(k) implies exists|i: int| 0 <= i < out.len() && out@[i].connection_id@ == k by {
            let i = choose|i: int| 0 <= i < items.len() && items@[i].key_view() == k;
            assert(out@[i].connection_id@ == k);
        }
        out
    }

    /// The bindings of every stored assignment as the policy engine takes
    /// them, each scoped to its connection, assignments in connection id
    /// order and bindings in their stored order.
    pub fn policy_assignments_for_engine(&self) -> (r: Vec<ConnectionPolicyAssignment>)
        ensures
            r@.map_values(|a: ConnectionPolicyAssignment| a@) == engine_assignments(
                self.assignment_list().map_values(|a: ConnectionPolicyAssignmentDto| a@),
            ),
    {
        let items = self.connection_policy_assignments.items();
        let ghost all = items@.map_values(|a: ConnectionPolicyAssignmentDto| a@);
        let mut out: Vec<ConnectionPolicyAssignment> = Vec::new();
        let mut i: usize = 0;
        while i < items.len()
            invariant
                i <= items.len(),
                all == items@.map_values(|a: ConnectionPolicyAssignmentDto| a@),
                out@.map_values(|a: ConnectionPolicyAssignment| a@) == engine_assignments(all.take(i as int)),
            decreases items.len() - i,
        {
            let assignment = &items[i];
            let ghost base = out@.map_values(|a: ConnectionPolicyAssignment| a@);
            let ghost av = assignment@;
            let mut j: usize = 0;
            while j < assignment.assignments.len()
                invariant
                    j <= assignment.assignments.len(),
                    av == assignment@,
                    out@.map_values(|a: ConnectionPolicyAssignment| a@) == base + scoped_bindings(av.connection_id, av.assignments.take(j as int)),
                decreases assignment.assignments.len() - j,
            {
                let binding = &assignment.assignments[j];
                let ghost before = out@.map_values(|a: ConnectionPolicyAssignment| a@);
                out.push(ConnectionPolicyAssignment {
                    actor_id: binding.actor_id.clone(),
                    connection_id: assignment.connection_id.clone(),
                    role_ids: copy_strings(&binding.role_ids),
                    policy_ids: copy_strings(&binding.policy_ids),
                });
                assert(out@.map_values(|a: ConnectionPolicyAssignment| a@) =~= before.push(scoped(av.connection_id, av.assignments[j as int])));
                assert(av.assignments.take(j + 1).drop_last() =~= av.assignments.take(j as int));
                assert(base + scoped_bindings(av.connection_id, av.assignments.take(j + 1)) =~= before.push(scoped(av.connection_id, av.assignments[j as int])));
                j = j + 1;
            }
            assert(av.assignments.take(assignment.assignments.len() as int) =~= av.assignments);
            assert(all.take(i + 1).drop_last() =~= all.take(i as int));
            assert(all.take(i + 1).last() == av);
            i = i + 1;
        }
        assert(all.take(items.len() as int) =~= all);
        out
    }

    /// The events recorded since the last drain, oldest first; none remain.
    pub fn drain_events(&mut self) -> (r: Vec<McpRuntimeEvent>)
        ensures
            r@ == old(self).events(),
            final(self).events().len() == 0,
            final(self).clients() == old(self).clients(),
            final(self).assignments() == old(self).assignments(),
    {
        let mut events: Vec<McpRuntimeEvent> = Vec::new();
        std::mem::swap(&mut events, &mut self.pending_events);
        events
    }
}

/// Who is asking.
#[derive(Debug)]
pub struct RequestIdentity {
    pub client_id: String,
    pub issuer: Option<String>,
}

/// A tool call to authorize.
#[derive(Debug)]
pub struct AuthorizationRequest {
    pub identity: RequestIdentity,
    pub connection_id: String,
    pub tool_id: String,
    pub classification: ExecutionClassification,
    pub mcp_enabled_for_connection: bool,
}

/// Whether the call may proceed, and if not, why.
#[derive(Debug)]
pub struct AuthorizationOutcome {
    pub allowed: bool,
    pub deny_code: Option<&'static str>,
    pub deny_reason: Option<String>,
}

/// How the trusted-client registry judged the caller.
#[derive(Debug)]
pub enum TrustedClientMatch {
    Trusted,
    Untrusted { reason: String },
}

/// Why a policy denied a call.
#[derive(Debug, Clone, Copy, PartialEq, Eq, Structural)]
pub enum PolicyDecisionReason {
    NoAssignment,
    NoPolicy,
    ToolDenied,
    ClassificationDenied,
}

/// What the policy engine decided.
#[derive(Debug, Clone, Copy, PartialEq, Eq, Structural)]
pub enum PolicyDecision {
    Allow,
    Deny(PolicyDecisionReason),
}

/// The question put to the policy engine.
#[derive(Debug)]
pub struct PolicyEvaluationRequest {
    pub actor_id: String,
    pub connection_id: String,
    pub tool_id: String,
    pub classification: ExecutionClassification,
}

/// The audit record an authorization decision leaves.
#[derive(Debug)]
pub struct AuditAppend {
    pub actor_id: String,
    pub tool_id: String,
    pub decision: &'static str,
    pub reason: Option<String>,
    pub created_at_epoch_ms: i64,
}

/// A decision and the audit record it leaves.
#[derive(Debug)]
pub struct AuthorizationVerdict {
    pub outcome: AuthorizationOutcome,
    pub audit: AuditAppend,
}

/// Why authorization could not decide.
#[derive(Debug)]
pub enum AuthorizationError {
    Policy(String),
    Audit(String),
}

pub open spec fn spec_deny_reason(reason: PolicyDecisionReason) -> Seq<char> {
    match reason {
        PolicyDecisionReason::NoAssignment => "no matching connection-scoped assignment"@,
        PolicyDecisionReason::NoPolicy => "no matching policy"@,
        PolicyDecisionReason::ToolDenied => "tool denied by policy"@,
        PolicyDecisionReason::ClassificationDenied => "classification denied by policy"@,
    }
}

/// The text that explains a policy denial.
pub fn format_policy_deny_reason(reason: PolicyDecisionReason) -> (r: &'static str)
    ensures
        r@ == spec_deny_reason(reason),
{
    match reason {
        PolicyDecisionReason::NoAssignment => "no matching connection-scoped assignment",
        PolicyDecisionReason::NoPolicy => "no matching policy",
        PolicyDecisionReason::ToolDenied => "tool denied by policy",
        PolicyDecisionReason::ClassificationDenied => "classification denied by policy",
    }
}

/// `v` denies the request's caller with this code and reason, and records a
/// `deny` for the caller and tool with that reason.
pub open spec fn is_denial(v: AuthorizationVerdict, request: AuthorizationRequest, code: Seq<char>, reason: Seq<char>, at: i64) -> bool {
    &&& !v.outcome.allowed
    &&& v.outcome.deny_code matches Some(c) && c@ == code
    &&& opt_view(v.outcome.deny_reason) == Some(reason)
    &&& v.audit.actor_id@ == request.identity.client_id@
    &&& v.audit.tool_id@ == request.tool_id@
    &&& v.audit.decision@ == "deny"@
    &&& opt_view(v.audit.reason) == Some(reason)
    &&& v.audit.created_at_epoch_ms == at
}

/// `v` allows the request and records an `allow` for the caller and tool.
pub open spec fn is_allowance(v: AuthorizationVerdict, request: AuthorizationRequest, at: i64) -> bool {
    &&& v.outcome.allowed
    &&& v.outcome.deny_code is None
    &&& v.outcome.deny_reason is None
    &&& v.audit.actor_id@ == request.identity.client_id@
    &&& v.audit.tool_id@ == request.tool_id@
    &&& v.audit.decision@ == "allow"@
    &&& v.audit.reason is None
    &&& v.audit.created_at_epoch_ms == at
}

/// The policy question for a request: the caller, connection, tool and class.
pub open spec fn asks_about(p: PolicyEvaluationRequest, request: AuthorizationRequest) -> bool {
    &&& p.actor_id@ == request.identity.client_id@
    &&& p.connection_id@ == request.connection_id@
    &&& p.tool_id@ == request.tool_id@
    &&& p.classification == request.classification
}

fn denial(request: &AuthorizationRequest, code: &'static str, reason: String, at: i64) -> (v: AuthorizationVerdict)
    ensures
        is_denial(v, *request, code@, reason@, at),
{
    let audit_reason = reason.clone();
    AuthorizationVerdict {
        outcome: AuthorizationOutcome { allowed: false, deny_code: Some(code), deny_reason: Some(reason) },
        audit: AuditAppend {
            actor_id: request.identity.client_id.clone(),
            tool_id: request.tool_id.clone(),
            decision: "deny",
            reason: Some(audit_reason),
            created_at_epoch_ms: at,
        },
    }
}

/// How a tool call is decided: a connection not enabled for MCP is refused;
/// then an untrusted caller is refused with the registry's reason; then the
/// policy engine decides, its denials explained by `spec_deny_reason`. The
/// verdict carries the audit record the decision leaves; a policy engine
/// failure is passed on.
pub open spec fn decided<P: Fn(&PolicyEvaluationRequest) -> Result<PolicyDecision, String>>(
    trust: TrustedClientMatch,
    evaluate_policy: P,
    request: AuthorizationRequest,
    at: i64,
    r: Result<AuthorizationVerdict, AuthorizationError>,
) -> bool {
    if !request.mcp_enabled_for_connection {
        r matches Ok(v) && is_denial(v, request, "connection_not_mcp_enabled"@, "connection not MCP-enabled"@, at)
    } else {
        match trust {
            TrustedClientMatch::Untrusted { reason } => r matches Ok(v) && is_denial(v, request, "untrusted_client"@, reason@, at),
            TrustedClientMatch::Trusted => exists|p: PolicyEvaluationRequest, d: Result<PolicyDecision, String>|
                asks_about(p, request) && #[trigger] evaluate_policy.ensures((&p,), d) && match d {
                    Err(e) => r matches Err(AuthorizationError::Policy(m)) && m@ == e@,
                    Ok(PolicyDecision::Allow) => r matches Ok(v) && is_allowance(v, request, at),
                    Ok(PolicyDecision::Deny(reason)) => r matches Ok(v) && is_denial(
                        v,
                        request,
                        "policy_denied"@,
                        spec_deny_reason(reason),
                        at,
                    ),
                },
        }
    }
}

/// Decides a tool call: a connection not enabled for MCP is refused; then an
/// untrusted caller is refused with the registry's reason; then the policy
/// engine decides, its denials explained by `format_policy_deny_reason`. The
/// verdict carries the audit record the decision leaves; a policy engine
/// failure is passed on.
pub fn authorize_request<P: Fn(&PolicyEvaluationRequest) -> Result<PolicyDecision, String>>(
    trust: &TrustedClientMatch,
    evaluate_policy: P,
    request: &AuthorizationRequest,
    created_at_epoch_ms: i64,
) -> (r: Result<AuthorizationVerdict, AuthorizationError>)
    requires
        forall|p: &PolicyEvaluationRequest| evaluate_policy.requires((p,)),
    ensures
        decided(*trust, evaluate_policy, *request, created_at_epoch_ms, r),
{
    if !request.mcp_enabled_for_connection {
        return Ok(denial(request, "connection_not_mcp_enabled", String::from_str("connection not MCP-enabled"), created_at_epoch_ms));
    }
    if let TrustedClientMatch::Untrusted { reason } = trust {
        return Ok(denial(request, "untrusted_client", reason.clone(), created_at_epoch_ms));
    }
    let policy_request = PolicyEvaluationRequest {
        actor_id: request.identity.client_id.clone(),
        connection_id: request.connection_id.clone(),
        tool_id: request.tool_id.clone(),
        classification: request.classification,
    };
    let decision = evaluate_policy(&policy_request);
    let ghost d = decision;
    let r = match decision {
        Err(e) => Err(AuthorizationError::Policy(e)),
        Ok(PolicyDecision::Allow) => Ok(AuthorizationVerdict {
            outcome: AuthorizationOutcome { allowed: true, deny_code: None, deny_reason: None },
            audit: AuditAppend {
                actor_id: request.identity.client_id.clone(),
                tool_id: request.tool_id.clone(),
                decision: "allow",
                reason: None,
                created_at_epoch_ms,
            },
        }),
        Ok(PolicyDecision::Deny(reason)) => {
            let text = String::from_str(format_policy_deny_reason(reason));
            Ok(denial(request, "policy_denied", text, created_at_epoch_ms))
        },
    };
    assert(asks_about(policy_request, *request) && evaluate_policy.ensures((&policy_request,), d));
    r
}

/// The text of an authorization error.
pub open spec fn authorization_error_text(e: AuthorizationError) -> Seq<char> {
    match e {
        AuthorizationError::Policy(m) => "policy evaluation failed: "@ + m@,
        AuthorizationError::Audit(m) => "audit append failed: "@ + m@,
    }
}

impl AuthorizationError {
    /// The error's message.
    pub fn message(&self) -> (r: String)
        ensures
            r@ == authorization_error_text(*self),
    {
        match self {
            AuthorizationError::Policy(m) => cat("policy evaluation failed: ", m.as_str()),
            AuthorizationError::Audit(m) => cat("audit append failed: ", m.as_str()),
        }
    }
}

/// A decision as `decided` describes it, its audit record appended through
/// `append_audit`: the outcome once the record is stored, the append's
/// failure as an audit error, a policy failure as it came.
pub open spec fn audited<
    P: Fn(&PolicyEvaluationRequest) -> Result<PolicyDecision, String>,
    A: FnOnce(&AuditAppend) -> Result<(), String>,
>(
    trust: TrustedClientMatch,
    evaluate_policy: P,
    append_audit: A,
    request: AuthorizationRequest,
    at: i64,
    r: Result<AuthorizationOutcome, AuthorizationError>,
) -> bool {
    exists|v: Result<AuthorizationVerdict, AuthorizationError>| #[trigger] decided(trust, evaluate_policy, request, at, v) && match v {
        Err(e) => r == Err::<AuthorizationOutcome, AuthorizationError>(e),
        Ok(verdict) => exists|a: Result<(), String>| #[trigger] append_audit.ensures((&verdict.audit,), a) && match a {
            Err(m) => r matches Err(AuthorizationError::Audit(x)) && x@ == m@,
            Ok(_) => r == Ok::<AuthorizationOutcome, AuthorizationError>(verdict.outcome),
        },
    }
}

/// Decides a tool call as `authorize_request` does and stores the audit
/// record the decision leaves through `append_audit`; an append that fails
/// fails the authorization.
pub fn authorize_and_audit<
    P: Fn(&PolicyEvaluationRequest) -> Result<PolicyDecision, String>,
    A: FnOnce(&AuditAppend) -> Result<(), String>,
>(
    trust: &TrustedClientMatch,
    evaluate_policy: P,
    append_audit: A,
    request: &AuthorizationRequest,
    created_at_epoch_ms: i64,
) -> (r: Result<AuthorizationOutcome, AuthorizationError>)
    requires
        forall|p: &PolicyEvaluationRequest| evaluate_policy.requires((p,)),
        forall|a: &AuditAppend| append_audit.requires((a,)),
    ensures
        audited(*trust, evaluate_policy, append_audit, *request, created_at_epoch_ms, r),
{
    let decision = authorize_request(trust, evaluate_policy, request, created_at_epoch_ms);
    let ghost v = decision;
    assert(decided(*trust, evaluate_policy, *request, created_at_epoch_ms, v));
    match decision {
        Err(e) => Err(e),
        Ok(verdict) => {
            let stored = append_audit(&verdict.audit);
            let ghost a = stored;
            assert(append_audit.ensures((&verdict.audit,), a));
            match stored {
                Err(m) => Err(AuthorizationError::Audit(m)),
                Ok(()) => Ok(verdict.outcome),
            }
        },
    }
}

/// How a governed tool call ended: authorization could not decide (the
/// message says why), the call was refused (with the refusal's message and
/// code), or the handler ran and gave this result.
#[derive(Debug)]
pub enum GovernedCall<R> {
    Failed(String),
    Refused { message: String, code: Option<&'static str> },
    Ran(R),
}

/// What the server answers a refused call: the refusal's reason (or a
/// generic one) and its code, if any.
pub fn denial_response(outcome: &AuthorizationOutcome) -> (r: Option<(String, Option<&'static str>)>)
    ensures
        outcome.allowed ==> r is None,
        !outcome.allowed ==> (r matches Some((message, code)) && message@ == match outcome.deny_reason {
            Some(m) => m@,
            None => "authorization denied"@,
        } && code == outcome.deny_code),
{
    if outcome.allowed {
        return None;
    }
    let message = match &outcome.deny_reason {
        Some(m) => m.clone(),
        None => String::from_str("authorization denied"),
    };
    Some((message, outcome.deny_code))
}

/// How the MCP server process was started: the client it serves and, if
/// given, the directory it reads its configuration from.
#[derive(Debug, Clone)]
pub struct McpServerArgs {
    pub client_id: String,
    pub config_dir: Option<String>,
}

/// Puts every tool call of one MCP client through authorization.
#[derive(Debug, Clone)]
pub struct GovernanceMiddleware {
    pub client_id: String,
}

impl GovernanceMiddleware {
    pub fn new(client_id: String) -> (r: GovernanceMiddleware)
        ensures
            r.client_id@ == client_id@,
    {
        GovernanceMiddleware { client_id }
    }

    /// The authorization request for a tool call by this client: the caller
    /// has no issuer, a call without a connection names the empty one, and
    /// such a call counts as MCP-enabled; a call on a connection is enabled
    /// as `connection_enabled` says.
    pub fn authorization_request(
        &self,
        tool_id: &str,
        connection_id: Option<&str>,
        classification: ExecutionClassification,
        connection_enabled: bool,
    ) -> (r: AuthorizationRequest)
        ensures
            r.identity.client_id@ == self.client_id@,
            r.identity.issuer is None,
            r.tool_id@ == tool_id@,
            r.classification == classification,
            r.connection_id@ == match connection_id {
                Some(c) => c@,
                None => Seq::<char>::empty(),
            },
            r.mcp_enabled_for_connection == match connection_id {
                Some(_) => connection_enabled,
                None => true,
            },
    {
        let (connection, enabled) = match connection_id {
            Some(c) => (String::from_str(c), connection_enabled),
            None => (String::new(), true),
        };
        AuthorizationRequest {
            identity: RequestIdentity { client_id: self.client_id.clone(), issuer: None },
            connection_id: connection,
            tool_id: String::from_str(tool_id),
            classification,
            mcp_enabled_for_connection: enabled,
        }
    }

    /// Puts a tool call through governance: builds its authorization
    /// request (see `authorization_request`), decides it and stores the audit
    /// record (see `authorize_and_audit`), and runs `handler` only when the
    /// call is allowed. An authorization that cannot decide, a failed audit
    /// append among them, ends the call with "Authorization error: " and the
    /// error's text; a refusal ends it with the refusal's message and code.
    pub fn authorize_and_execute<
        P: Fn(&PolicyEvaluationRequest) -> Result<PolicyDecision, String>,
        A: FnOnce(&AuditAppend) -> Result<(), String>,
        R,
        H: FnOnce() -> R,
    >(
        &self,
        tool_id: &str,
        connection_id: Option<&str>,
        classification: ExecutionClassification,
        connection_enabled: bool,
        trust: &TrustedClientMatch,
        evaluate_policy: P,
        append_audit: A,
        created_at_epoch_ms: i64,
        handler: H,
    ) -> (r: GovernedCall<R>)
        requires
            forall|p: &PolicyEvaluationRequest| evaluate_policy.requires((p,)),
            forall|a: &AuditAppend| append_audit.requires((a,)),
            handler.requires(()),
        ensures
            exists|request: AuthorizationRequest, a: Result<AuthorizationOutcome, AuthorizationError>| {
                &&& request.identity.client_id@ == self.client_id@
                &&& request.identity.issuer is None
                &&& request.tool_id@ == tool_id@
                &&& request.classification == classification
                &&& request.connection_id@ == match connection_id {
                    Some(c) => c@,
                    None => Seq::<char>::empty(),
                }
                &&& request.mcp_enabled_for_connection == match connection_id {
                    Some(_) => connection_enabled,
                    None => true,
                }
                &&& #[trigger] audited(*trust, evaluate_policy, append_audit, request, created_at_epoch_ms, a)
                &&& match a {
                    Err(e) => r matches GovernedCall::Failed(m) && m@ == "Authorization error: "@ + authorization_error_text(e),
                    Ok(o) => if o.allowed {
                        r matches GovernedCall::Ran(x) && handler.ensures((), x)
                    } else {
                        r matches GovernedCall::Refused { message, code } && message@ == match o.deny_reason {
                            Some(m) => m@,
                            None => "authorization denied"@,
                        } && code == o.deny_code
                    },
                }
            },
    {
        let request = self.authorization_request(tool_id, connection_id, classification, connection_enabled);
        let decision = authorize_and_audit(trust, evaluate_policy, append_audit, &request, created_at_epoch_ms);
        let ghost a = decision;
        assert(audited(*trust, evaluate_policy, append_audit, request, created_at_epoch_ms, a));
        match decision {
            Err(e) => GovernedCall::Failed(cat("Authorization error: ", e.message().as_str())),
            Ok(outcome) => match denial_response(&outcome) {
                Some((message, code)) => GovernedCall::Refused { message, code },
                None => GovernedCall::Ran(handler()),
            },
        }
    }
}

/// A tool call held for approval: who asked, on which connection, for which
/// tool and class of work, with the call's arguments.
#[derive(Debug)]
pub struct ExecutionPlan {
    pub connection_id: String,
    pub actor_id: String,
    pub tool_id: String,
    pub classification: ExecutionClassification,
    pub payload: crate::json::JsonValue,
}

impl McpRuntime {
    /// The plan of a call to hold for approval.
    pub fn classify_plan(
        &self,
        classification: ExecutionClassification,
        payload: crate::json::JsonValue,
        actor_id: String,
        connection_id: String,
        tool_id: String,
    ) -> (r: ExecutionPlan)
        ensures
            r.classification == classification,
            r.payload == payload,
            r.actor_id == actor_id,
            r.connection_id == connection_id,
            r.tool_id == tool_id,
    {
        ExecutionPlan { connection_id, actor_id, tool_id, classification, payload }
    }
}

/// `q` starts with one of the words.
pub open spec fn starts_with_any(q: Seq<char>, words: Seq<Seq<char>>) -> bool {
    exists|i: int| 0 <= i < words.len() && crate::text::spec_starts_with(q, #[trigger] words[i])
}

/// The class of work an SQL text does, by its first word once trimmed and
/// in upper case: reads (`SELECT`, `SHOW`, `DESCRIBE`, `EXPLAIN`), writes
/// (`INSERT`, `UPDATE`), destructive statements (`DELETE`, `DROP`,
/// `TRUNCATE`), administration (`CREATE`, `ALTER`, `GRANT`, `REVOKE`);
/// anything else counts as a read.
pub open spec fn spec_classify_query(query: Seq<char>) -> ExecutionClassification {
    let q = crate::ddl::spec_to_uppercase(spec_trim(query));
    if starts_with_any(q, seq!["SELECT"@, "SHOW"@, "DESCRIBE"@, "EXPLAIN"@]) {
        ExecutionClassification::Read
    } else if starts_with_any(q, seq!["INSERT"@, "UPDATE"@]) {
        ExecutionClassification::Write
    } else if starts_with_any(q, seq!["DELETE"@, "DROP"@, "TRUNCATE"@]) {
        ExecutionClassification::Destructive
    } else if starts_with_any(q, seq!["CREATE"@, "ALTER"@, "GRANT"@, "REVOKE"@]) {
        ExecutionClassification::Admin
    } else {
        ExecutionClassification::Read
    }
}

fn starts_with_one_of(q: &str, words: &Vec<&str>) -> (r: bool)
    ensures
        r == starts_with_any(q@, str_views(words@)),
{
    let mut i: usize = 0;
    while i < words.len()
        invariant
            i <= words.len(),
            forall|j: int| 0 <= j < i ==> !crate::text::spec_starts_with(q@, #[trigger] str_views(words@)[j]),
        decreases words.len() - i,
    {
        if crate::text::starts_with(q, words[i]) {
            assert(str_views(words@)[i as int] == words@[i as int]@);
            return true;
        }
        i = i + 1;
    }
    false
}

/// The class of work an SQL text does (see `spec_classify_query`).
pub fn classify_query(query: &str) -> (r: ExecutionClassification)
    ensures
        r == spec_classify_query(query@),
{
    let trimmed = trim(query);
    let upper = crate::ddl::to_uppercase(trimmed.as_str());
    let q = upper.as_str();
    let reads: Vec<&str> = vec!["SELECT", "SHOW", "DESCRIBE", "EXPLAIN"];
    let writes: Vec<&str> = vec!["INSERT", "UPDATE"];
    let destructive: Vec<&str> = vec!["DELETE", "DROP", "TRUNCATE"];
    let admin: Vec<&str> = vec!["CREATE", "ALTER", "GRANT", "REVOKE"];
    assert(str_views(reads@) =~= seq!["SELECT"@, "SHOW"@, "DESCRIBE"@, "EXPLAIN"@]);
    assert(str_views(writes@) =~= seq!["INSERT"@, "UPDATE"@]);
    assert(str_views(destructive@) =~= seq!["DELETE"@, "DROP"@, "TRUNCATE"@]);
    assert(str_views(admin@) =~= seq!["CREATE"@, "ALTER"@, "GRANT"@, "REVOKE"@]);
    if starts_with_one_of(q, &reads) {
        ExecutionClassification::Read
    } else if starts_with_one_of(q, &writes) {
        ExecutionClassification::Write
    } else if starts_with_one_of(q, &destructive) {
        ExecutionClassification::Destructive
    } else if starts_with_one_of(q, &admin) {
        ExecutionClassification::Admin
    } else {
        ExecutionClassification::Read
    }
}


proof fn lemma_not_both_prefixes(q: Seq<char>, a: Seq<char>, b: Seq<char>, k: int)
    requires
        0 <= k < a.len(),
        k < b.len(),
        a[k] != b[k],
    ensures
        !(spec_starts_with(q, a) && spec_starts_with(q, b)),
{
    if spec_starts_with(q, a) && spec_starts_with(q, b) {
        assert(q.subrange(0, a.len() as int)[k] == q[k]);
        assert(q.subrange(0, b.len() as int)[k] == q[k]);
    }
}

/// A query's class is decided by the word its trimmed, upper-cased text
/// starts with: `DELETE`, `DROP` and `TRUNCATE` are destructive; `INSERT`
/// and `UPDATE` are writes; `CREATE`, `ALTER`, `GRANT` and `REVOKE` are
/// administration; `SELECT`, `SHOW`, `DESCRIBE` and `EXPLAIN` are reads.
/// The write and destructive classes come only from their own words.
pub proof fn lemma_query_classes(query: Seq<char>)
    ensures
        ({
            let q = crate::ddl::spec_to_uppercase(spec_trim(query));
            &&& (spec_starts_with(q, "DELETE"@) || spec_starts_with(q, "DROP"@) || spec_starts_with(q, "TRUNCATE"@)) ==> spec_classify_query(query) == ExecutionClassification::Destructive
            &&& (spec_starts_with(q, "INSERT"@) || spec_starts_with(q, "UPDATE"@)) ==> spec_classify_query(query) == ExecutionClassification::Write
            &&& (spec_starts_with(q, "CREATE"@) || spec_starts_with(q, "ALTER"@) || spec_starts_with(q, "GRANT"@) || spec_starts_with(q, "REVOKE"@)) ==> spec_classify_query(query) == ExecutionClassification::Admin
            &&& (spec_starts_with(q, "SELECT"@) || spec_starts_with(q, "SHOW"@) || spec_starts_with(q, "DESCRIBE"@) || spec_starts_with(q, "EXPLAIN"@)) ==> spec_classify_query(query) == ExecutionClassification::Read
            &&& spec_classify_query(query) == ExecutionClassification::Write ==> (spec_starts_with(q, "INSERT"@) || spec_starts_with(q, "UPDATE"@))
            &&& spec_classify_query(query) == ExecutionClassification::Destructive ==> (spec_starts_with(q, "DELETE"@) || spec_starts_with(q, "DROP"@) || spec_starts_with(q, "TRUNCATE"@))
        }),
{
    let q = crate::ddl::spec_to_uppercase(spec_trim(query));
    reveal_strlit("SELECT");
    reveal_strlit("SHOW");
    reveal_strlit("DESCRIBE");
    reveal_strlit("EXPLAIN");
    reveal_strlit("INSERT");
    reveal_strlit("UPDATE");
    reveal_strlit("DELETE");
    reveal_strlit("DROP");
    reveal_strlit("TRUNCATE");
    reveal_strlit("CREATE");
    reveal_strlit("ALTER");
    reveal_strlit("GRANT");
    reveal_strlit("REVOKE");
    if spec_starts_with(q, "SELECT"@) { assert(seq!["SELECT"@, "SHOW"@, "DESCRIBE"@, "EXPLAIN"@][0] == "SELECT"@); }
    if spec_starts_with(q, "SHOW"@) { assert(seq!["SELECT"@, "SHOW"@, "DESCRIBE"@, "EXPLAIN"@][1] == "SHOW"@); }
    if spec_starts_with(q, "DESCRIBE"@) { assert(seq!["SELECT"@, "SHOW"@, "DESCRIBE"@, "EXPLAIN"@][2] == "DESCRIBE"@); }
    if spec_starts_with(q, "EXPLAIN"@) { assert(seq!["SELECT"@, "SHOW"@, "DESCRIBE"@, "EXPLAIN"@][3] == "EXPLAIN"@); }
    if spec_starts_with(q, "INSERT"@) { assert(seq!["INSERT"@, "UPDATE"@][0] == "INSERT"@); }
    if spec_starts_with(q, "UPDATE"@) { assert(seq!["INSERT"@, "UPDATE"@][1] == "UPDATE"@); }
    if spec_starts_with(q, "DELETE"@) { assert(seq!["DELETE"@, "DROP"@, "TRUNCATE"@][0] == "DELETE"@); }
    if spec_starts_with(q, "DROP"@) { assert(seq!["DELETE"@, "DROP"@, "TRUNCATE"@][1] == "DROP"@); }
    if spec_starts_with(q, "TRUNCATE"@) { assert(seq!["DELETE"@, "DROP"@, "TRUNCATE"@][2] == "TRUNCATE"@); }
    if spec_starts_with(q, "CREATE"@) { assert(seq!["CREATE"@, "ALTER"@, "GRANT"@, "REVOKE"@][0] == "CREATE"@); }
    if spec_starts_with(q, "ALTER"@) { assert(seq!["CREATE"@, "ALTER"@, "GRANT"@, "REVOKE"@][1] == "ALTER"@); }
    if spec_starts_with(q, "GRANT"@) { assert(seq!["CREATE"@, "ALTER"@, "GRANT"@, "REVOKE"@][2] == "GRANT"@); }
    if spec_starts_with(q, "REVOKE"@) { assert(seq!["CREATE"@, "ALTER"@, "GRANT"@, "REVOKE"@][3] == "REVOKE"@); }
    if spec_starts_with(q, "INSERT"@) || spec_starts_with(q, "UPDATE"@) {
        lemma_not_both_prefixes(q, "INSERT"@, "SELECT"@, 0);
        lemma_not_both_prefixes(q, "INSERT"@, "SHOW"@, 0);
        lemma_not_both_prefixes(q, "INSERT"@, "DESCRIBE"@, 0);
        lemma_not_both_prefixes(q, "INSERT"@, "EXPLAIN"@, 0);
        lemma_not_both_prefixes(q, "UPDATE"@, "SELECT"@, 0);
        lemma_not_both_prefixes(q, "UPDATE"@, "SHOW"@, 0);
        lemma_not_both_prefixes(q, "UPDATE"@, "DESCRIBE"@, 0);
        lemma_not_both_prefixes(q, "UPDATE"@, "EXPLAIN"@, 0);
        assert(!starts_with_any(q, seq!["SELECT"@, "SHOW"@, "DESCRIBE"@, "EXPLAIN"@])) by {
            let ws = seq!["SELECT"@, "SHOW"@, "DESCRIBE"@, "EXPLAIN"@];
            if starts_with_any(q, ws) {
                let i = choose|i: int| 0 <= i < 4 && spec_starts_with(q, #[trigger] ws[i]);
                if i == 0 { assert(ws[0] == "SELECT"@); }
                if i == 1 { assert(ws[1] == "SHOW"@); }
                if i == 2 { assert(ws[2] == "DESCRIBE"@); }
                if i == 3 { assert(ws[3] == "EXPLAIN"@); }
            }
        }
    }
    if spec_starts_with(q, "DELETE"@) || spec_starts_with(q, "DROP"@) || spec_starts_with(q, "TRUNCATE"@) {
        lemma_not_both_prefixes(q, "DELETE"@, "SELECT"@, 0);
        lemma_not_both_prefixes(q, "DELETE"@, "SHOW"@, 0);
        lemma_not_both_prefixes(q, "DELETE"@, "DESCRIBE"@, 2);
        lemma_not_both_prefixes(q, "DELETE"@, "EXPLAIN"@, 0);
        lemma_not_both_prefixes(q, "DELETE"@, "INSERT"@, 0);
        lemma_not_both_prefixes(q, "DELETE"@, "UPDATE"@, 0);
        lemma_not_both_prefixes(q, "DROP"@, "SELECT"@, 0);
        lemma_not_both_prefixes(q, "DROP"@, "SHOW"@, 0);
        lemma_not_both_prefixes(q, "DROP"@, "DESCRIBE"@, 1);
        lemma_not_both_prefixes(q, "DROP"@, "EXPLAIN"@, 0);
        lemma_not_both_prefixes(q, "DROP"@, "INSERT"@, 0);
        lemma_not_both_prefixes(q, "DROP"@, "UPDATE"@, 0);
        lemma_not_both_prefixes(q, "TRUNCATE"@, "SELECT"@, 0);
        lemma_not_both_prefixes(q, "TRUNCATE"@, "SHOW"@, 0);
        lemma_not_both_prefixes(q, "TRUNCATE"@, "DESCRIBE"@, 0);
        lemma_not_both_prefixes(q, "TRUNCATE"@, "EXPLAIN"@, 0);
        lemma_not_both_prefixes(q, "TRUNCATE"@, "INSERT"@, 0);
        lemma_not_both_prefixes(q, "TRUNCATE"@, "UPDATE"@, 0);
        assert(!starts_with_any(q, seq!["SELECT"@, "SHOW"@, "DESCRIBE"@, "EXPLAIN"@])) by {
            let ws = seq!["SELECT"@, "SHOW"@, "DESCRIBE"@, "EXPLAIN"@];
            if starts_with_any(q, ws) {
                let i = choose|i: int| 0 <= i < 4 && spec_starts_with(q, #[trigger] ws[i]);
                if i == 0 { assert(ws[0] == "SELECT"@); }
                if i == 1 { assert(ws[1] == "SHOW"@); }
                if i == 2 { assert(ws[2] == "DESCRIBE"@); }
                if i == 3 { assert(ws[3] == "EXPLAIN"@); }
            }
        }
        assert(!starts_with_any(q, seq!["INSERT"@, "UPDATE"@])) by {
            let ws = seq!["INSERT"@, "UPDATE"@];
            if starts_with_any(q, ws) {
                let i = choose|i: int| 0 <= i < 2 && spec_starts_with(q, #[trigger] ws[i]);
                if i == 0 { assert(ws[0] == "INSERT"@); }
                if i == 1 { assert(ws[1] == "UPDATE"@); }
            }
        }
    }
    if spec_starts_with(q, "CREATE"@) || spec_starts_with(q, "ALTER"@) || spec_starts_with(q, "GRANT"@) || spec_starts_with(q, "REVOKE"@) {
        lemma_not_both_prefixes(q, "CREATE"@, "SELECT"@, 0);
        lemma_not_both_prefixes(q, "CREATE"@, "SHOW"@, 0);
        lemma_not_both_prefixes(q, "CREATE"@, "DESCRIBE"@, 0);
        lemma_not_both_prefixes(q, "CREATE"@, "EXPLAIN"@, 0);
        lemma_not_both_prefixes(q, "CREATE"@, "INSERT"@, 0);
        lemma_not_both_prefixes(q, "CREATE"@, "UPDATE"@, 0);
        lemma_not_both_prefixes(q, "CREATE"@, "DELETE"@, 0);
        lemma_not_both_prefixes(q, "CREATE"@, "DROP"@, 0);
        lemma_not_both_prefixes(q, "CREATE"@, "TRUNCATE"@, 0);
        lemma_not_both_prefixes(q, "ALTER"@, "SELECT"@, 0);
        lemma_not_both_prefixes(q, "ALTER"@, "SHOW"@, 0);
        lemma_not_both_prefixes(q, "ALTER"@, "DESCRIBE"@, 0);
        lemma_not_both_prefixes(q, "ALTER"@, "EXPLAIN"@, 0);
        lemma_not_both_prefixes(q, "ALTER"@, "INSERT"@, 0);
        lemma_not_both_prefixes(q, "ALTER"@, "UPDATE"@, 0);
        lemma_not_both_prefixes(q, "ALTER"@, "DELETE"@, 0);
        lemma_not_both_prefixes(q, "ALTER"@, "DROP"@, 0);
        lemma_not_both_prefixes(q, "ALTER"@, "TRUNCATE"@, 0);
        lemma_not_both_prefixes(q, "GRANT"@, "SELECT"@, 0);
        lemma_not_both_prefixes(q, "GRANT"@, "SHOW"@, 0);
        lemma_not_both_prefixes(q, "GRANT"@, "DESCRIBE"@, 0);
        lemma_not_both_prefixes(q, "GRANT"@, "EXPLAIN"@, 0);
        lemma_not_both_prefixes(q, "GRANT"@, "INSERT"@, 0);
        lemma_not_both_prefixes(q, "GRANT"@, "UPDATE"@, 0);
        lemma_not_both_prefixes(q, "GRANT"@, "DELETE"@, 0);
        lemma_not_both_prefixes(q, "GRANT"@, "DROP"@, 0);
        lemma_not_both_prefixes(q, "GRANT"@, "TRUNCATE"@, 0);
        lemma_not_both_prefixes(q, "REVOKE"@, "SELECT"@, 0);
        lemma_not_both_prefixes(q, "REVOKE"@, "SHOW"@, 0);
        lemma_not_both_prefixes(q, "REVOKE"@, "DESCRIBE"@, 0);
        lemma_not_both_prefixes(q, "REVOKE"@, "EXPLAIN"@, 0);
        lemma_not_both_prefixes(q, "REVOKE"@, "INSERT"@, 0);
        lemma_not_both_prefixes(q, "REVOKE"@, "UPDATE"@, 0);
        lemma_not_both_prefixes(q, "REVOKE"@, "DELETE"@, 0);
        lemma_not_both_prefixes(q, "REVOKE"@, "DROP"@, 0);
        lemma_not_both_prefixes(q, "REVOKE"@, "TRUNCATE"@, 0);
        assert(!starts_with_any(q, seq!["SELECT"@, "SHOW"@, "DESCRIBE"@, "EXPLAIN"@])) by {
            let ws = seq!["SELECT"@, "SHOW"@, "DESCRIBE"@, "EXPLAIN"@];
            if starts_with_any(q, ws) {
                let i = choose|i: int| 0 <= i < 4 && spec_starts_with(q, #[trigger] ws[i]);
                if i == 0 { assert(ws[0] == "SELECT"@); }
                if i == 1 { assert(ws[1] == "SHOW"@); }
                if i == 2 { assert(ws[2] == "DESCRIBE"@); }
                if i == 3 { assert(ws[3] == "EXPLAIN"@); }
            }
        }
        assert(!starts_with_any(q, seq!["INSERT"@, "UPDATE"@])) by {
            let ws = seq!["INSERT"@, "UPDATE"@];
            if starts_with_any(q, ws) {
                let i = choose|i: int| 0 <= i < 2 && spec_starts_with(q, #[trigger] ws[i]);
                if i == 0 { assert(ws[0] == "INSERT"@); }
                if i == 1 { assert(ws[1] == "UPDATE"@); }
            }
        }
        assert(!starts_with_any(q, seq!["DELETE"@, "DROP"@, "TRUNCATE"@])) by {
            let ws = seq!["DELETE"@, "DROP"@, "TRUNCATE"@];
            if starts_with_any(q, ws) {
                let i = choose|i: int| 0 <= i < 3 && spec_starts_with(q, #[trigger] ws[i]);
                if i == 0 { assert(ws[0] == "DELETE"@); }
                if i == 1 { assert(ws[1] == "DROP"@); }
                if i == 2 { assert(ws[2] == "TRUNCATE"@); }
            }
        }
    }
    if spec_classify_query(query) == ExecutionClassification::Write {
        let ws = seq!["INSERT"@, "UPDATE"@];
        let i = choose|i: int| 0 <= i < 2 && spec_starts_with(q, #[trigger] ws[i]);
        if i == 0 { assert(ws[0] == "INSERT"@); } else { assert(ws[1] == "UPDATE"@); }
    }
    if spec_classify_query(query) == ExecutionClassification::Destructive {
        let ws = seq!["DELETE"@, "DROP"@, "TRUNCATE"@];
        let i = choose|i: int| 0 <= i < 3 && spec_starts_with(q, #[trigger] ws[i]);
        if i == 0 { assert(ws[0] == "DELETE"@); } else if i == 1 { assert(ws[1] == "DROP"@); } else { assert(ws[2] == "TRUNCATE"@); }
    }
}

} // verus!
