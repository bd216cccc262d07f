//! Connection profiles: which database a profile points at and how.
use vstd::prelude::*;
use crate::error::opt_view;
use crate::hooks::{ConnectionHookBindings, ConnectionHooks};
use crate::strmap::StrMap;

verus! {

/// The database engines a profile can point at.
#[derive(Debug, Clone, Copy, PartialEq, Eq, Structural)]
pub enum DbKind {
    Postgres,
    SQLite,
    MySQL,
    MongoDB,
    Redis,
    DynamoDB,
}

/// The name `{:?}` prints for a database kind.
pub open spec fn kind_name(kind: DbKind) -> Seq<char> {
    match kind {
        DbKind::Postgres => "Postgres"@,
        DbKind::SQLite => "SQLite"@,
        DbKind::MySQL => "MySQL"@,
        DbKind::MongoDB => "MongoDB"@,
        DbKind::Redis => "Redis"@,
        DbKind::DynamoDB => "DynamoDB"@,
    }
}

impl DbKind {
    /// The kind's name as `{:?}` prints it.
    pub fn debug_name(&self) -> (r: &'static str)
        ensures
            r@ == kind_name(*self),
    {
        match self {
            DbKind::Postgres => "Postgres",
            DbKind::SQLite => "SQLite",
            DbKind::MySQL => "MySQL",
            DbKind::MongoDB => "MongoDB",
            DbKind::Redis => "Redis",
            DbKind::DynamoDB => "DynamoDB",
        }
    }
}

/// The values of a driver's connection form, by field id.
pub type FormValues = StrMap;

/// How to reach a database.
#[derive(Debug)]
#[allow(inconsistent_fields)]
pub enum DbConfig {
    Postgres { host: String, port: u16, user: String, database: String },
    SQLite { path: String },
    MySQL { host: String, port: u16, user: String, database: Option<String> },
    MongoDB { host: String, port: u16, database: Option<String> },
    Redis { host: String, port: u16, database: Option<u32> },
    DynamoDB { region: String, profile: Option<String>, endpoint: Option<String>, table: Option<String> },
    /// A driver outside the built-in set, configured by its form values.
    External { kind: DbKind, values: FormValues },
}

/// The kind of database a configuration points at.
pub open spec fn config_kind(config: DbConfig) -> DbKind {
    match config {
        DbConfig::Postgres { .. } => DbKind::Postgres,
        DbConfig::SQLite { .. } => DbKind::SQLite,
        DbConfig::MySQL { .. } => DbKind::MySQL,
        DbConfig::MongoDB { .. } => DbKind::MongoDB,
        DbConfig::Redis { .. } => DbKind::Redis,
        DbConfig::DynamoDB { .. } => DbKind::DynamoDB,
        DbConfig::External { kind, .. } => kind,
    }
}

impl DbConfig {
    /// The kind of database this configuration points at.
    pub fn kind(&self) -> (r: DbKind)
        ensures
            r == config_kind(*self),
    {
        match self {
            DbConfig::Postgres { .. } => DbKind::Postgres,
            DbConfig::SQLite { .. } => DbKind::SQLite,
            DbConfig::MySQL { .. } => DbKind::MySQL,
            DbConfig::MongoDB { .. } => DbKind::MongoDB,
            DbConfig::Redis { .. } => DbKind::Redis,
            DbConfig::DynamoDB { .. } => DbKind::DynamoDB,
            DbConfig::External { kind, .. } => *kind,
        }
    }
}

/// A saved connection: its identity, target and lifecycle hooks.
#[derive(Debug)]
pub struct ConnectionProfile {
    /// The profile's UUID, as its 128-bit value.
    pub id: u128,
    pub name: String,
    pub kind: DbKind,
    pub config: DbConfig,
    /// Hooks written into the profile itself.
    pub hooks: Option<ConnectionHooks>,
    /// References to globally defined hooks, by id.
    pub hook_bindings: Option<ConnectionHookBindings>,
}

impl ConnectionProfile {
    /// A profile with the given identity and target and no hooks; its kind is
    /// the configuration's.
    pub fn with_id(id: u128, name: String, config: DbConfig) -> (r: ConnectionProfile)
        ensures
            r.id == id,
            r.name@ == name@,
            r.kind == config_kind(config),
            r.config == config,
            r.hooks is None,
            r.hook_bindings is None,
    {
        let kind = config.kind();
        ConnectionProfile { id, name, kind, config, hooks: None, hook_bindings: None }
    }

    /// The kind of database the profile points at.
    pub fn kind(&self) -> (r: DbKind)
        ensures
            r == self.kind,
    {
        self.kind
    }
}

/// The saved connection profiles, in the order the user keeps them.
#[derive(Debug)]
pub struct ProfileManager {
    pub profiles: Vec<ConnectionProfile>,
}

impl ProfileManager {
    /// A manager over these profiles.
    pub fn with_profiles(profiles: Vec<ConnectionProfile>) -> (r: ProfileManager)
        ensures
            r.profiles@ == profiles@,
    {
        ProfileManager { profiles }
    }

    fn position_of(&self, id: u128) -> (r: Option<usize>)
        ensures
            match r {
                Some(i) => i < self.profiles.len() && self.profiles@[i as int].id == id
                    && forall|j: int| 0 <= j < i ==> self.profiles@[j].id != id,
                None => forall|j: int| 0 <= j < self.profiles.len() ==> self.profiles@[j].id != id,
            },
    {
        let mut i: usize = 0;
        while i < self.profiles.len()
            invariant
                i <= self.profiles.len(),
                forall|j: int| 0 <= j < i ==> self.profiles@[j].id != id,
            decreases self.profiles.len() - i,
        {
            if self.profiles[i].id == id {
                return Some(i);
            }
            i = i + 1;
        }
        None
    }

    /// The first profile with this id.
    pub fn find_by_id(&self, id: u128) -> (r: Option<&ConnectionProfile>)
        ensures
            match r {
                Some(p) => exists|i: int| 0 <= i < self.profiles.len() && self.profiles@[i] == *p && p.id == id
                    && forall|j: int| 0 <= j < i ==> self.profiles@[j].id != id,
                None => forall|j: int| 0 <= j < self.profiles.len() ==> self.profiles@[j].id != id,
            },
    {
        match self.position_of(id) {
            Some(i) => Some(&self.profiles[i]),
            None => None,
        }
    }

    /// Replaces the first profile with the same id; returns whether one was
    /// replaced (and the profiles must then be saved).
    pub fn update(&mut self, profile: ConnectionProfile) -> (changed: bool)
        ensures
            changed == exists|i: int| 0 <= i < old(self).profiles.len() && old(self).profiles@[i].id == profile.id,
            !changed ==> final(self).profiles@ == old(self).profiles@,
            changed ==> exists|i: int| 0 <= i < old(self).profiles.len() && old(self).profiles@[i].id == profile.id
                && (forall|j: int| 0 <= j < i ==> old(self).profiles@[j].id != profile.id)
                && final(self).profiles@ == old(self).profiles@.update(i, profile),
    {
        match self.position_of(profile.id) {
            Some(i) => {
                let ghost pf = profile;
                self.profiles.set(i, profile);
                assert(old(self).profiles@[i as int].id == pf.id);
                true
            },
            None => false,
        }
    }

    /// Adds a profile at the end (the profiles must then be saved).
    pub fn add(&mut self, profile: ConnectionProfile)
        ensures
            final(self).profiles@ == old(self).profiles@.push(profile),
    {
        self.profiles.push(profile);
    }

    /// Removes the profile at a position, if there is one there (the profiles
    /// must then be saved).
    pub fn remove(&mut self, idx: usize) -> (r: Option<ConnectionProfile>)
        ensures
            idx < old(self).profiles.len() ==> r == Some(old(self).profiles@[idx as int])
                && final(self).profiles@ == old(self).profiles@.remove(idx as int),
            idx >= old(self).profiles.len() ==> r is None && final(self).profiles@ == old(self).profiles@,
    {
        if idx < self.profiles.len() {
            Some(self.profiles.remove(idx))
        } else {
            None
        }
    }

    /// The ids of the profiles, in order.
    pub fn profile_ids(&self) -> (r: Vec<u128>)
        ensures
            r.len() == self.profiles.len(),
            forall|i: int| 0 <= i < r.len() ==> #[trigger] r@[i] == self.profiles@[i].id,
    {
        let mut ids: Vec<u128> = Vec::new();
        let mut i: usize = 0;
        while i < self.profiles.len()
            invariant
                i <= self.profiles.len(),
                ids.len() == i,
                forall|k: int| 0 <= k < i ==> #[trigger] ids@[k] == self.profiles@[k].id,
            decreases self.profiles.len() - i,
        {
            ids.push(self.profiles[i].id);
            i = i + 1;
        }
        ids
    }
}

} // verus!
