//! Schema decisions of the SQLite credential and registration store.

use vstd::prelude::*;

use super::RegistrationError;
use crate::text;

verus! {

/// Why the store could not be opened or read.
#[derive(Debug)]
pub enum SqliteStoreError {
    /// The database failed.
    Sqlite(String),
    /// The schema on disk is newer than what is understood here.
    SchemaTooNew {
        /// Version on disk.
        found: i32,
        /// Highest version that is understood.
        max_supported: i32,
    },
}

/// A signed number in decimal.
pub open spec fn signed_decimal(n: i32) -> Seq<char> {
    if n >= 0 {
        text::decimal(n as nat)
    } else {
        "-"@ + text::decimal((-n) as nat)
    }
}

/// The message of an error.
pub open spec fn sqlite_error_text(e: SqliteStoreError) -> Seq<char> {
    match e {
        SqliteStoreError::Sqlite(m) => "sqlite: "@ + m@,
        SqliteStoreError::SchemaTooNew { found, max_supported } => "schema version "@
            + signed_decimal(found) + " is newer than supported "@ + signed_decimal(max_supported),
    }
}

fn write_signed(n: i32) -> (r: String)
    ensures
        r@ == signed_decimal(n),
{
    if n >= 0 {
        text::decimal_string(n as u64)
    } else {
        let magnitude: i64 = -(n as i64);
        let mut s: String = "-".to_owned();
        s.append(&text::decimal_string(magnitude as u64));
        s
    }
}

impl SqliteStoreError {
    /// The message of the error.
    pub fn message(&self) -> (r: String)
        ensures
            r@ == sqlite_error_text(*self),
    {
        match self {
            SqliteStoreError::Sqlite(m) => {
                let mut s: String = "sqlite: ".to_owned();
                s.append(m);
                s
            },
            SqliteStoreError::SchemaTooNew { found, max_supported } => {
                let mut s: String = "schema version ".to_owned();
                s.append(&write_signed(*found));
                s.append(" is newer than supported ");
                s.append(&write_signed(*max_supported));
                s
            },
        }
    }

    /// The error as a registration store reports it.
    pub fn into_registration_error(self) -> (r: RegistrationError)
        ensures
            r matches RegistrationError::Backend(m) && m@ == sqlite_error_text(self),
    {
        RegistrationError::Backend(self.message())
    }
}

/// Highest schema version that is understood.
pub const CURRENT_SCHEMA_VERSION: i32 = 1;

/// Brings a database to the current schema.
#[derive(Debug)]
pub struct MigrationRunner;

/// The versions between `current` and the newest, in ascending order.
pub open spec fn pending_from(current: i32) -> Seq<i32> {
    if current >= CURRENT_SCHEMA_VERSION {
        seq![]
    } else {
        seq![1i32]
    }
}

impl MigrationRunner {
    /// The migrations that a database of version `current` needs, in order. A
    /// version newer than what is understood is refused.
    pub fn pending(current: i32) -> (r: Result<Vec<i32>, SqliteStoreError>)
        ensures
            match r {
                Ok(v) => current <= CURRENT_SCHEMA_VERSION && v@ == pending_from(current),
                Err(e) => current > CURRENT_SCHEMA_VERSION && e == (SqliteStoreError::SchemaTooNew {
                    found: current,
                    max_supported: CURRENT_SCHEMA_VERSION,
                }),
            },
    {
        if current > CURRENT_SCHEMA_VERSION {
            return Err(
                SqliteStoreError::SchemaTooNew {
                    found: current,
                    max_supported: CURRENT_SCHEMA_VERSION,
                },
            );
        }
        let mut v: Vec<i32> = Vec::new();
        if current < 1 {
            v.push(1);
        }
        assert(v@ =~= pending_from(current));
        Ok(v)
    }

    /// The version a database has once `pending` was applied to it.
    pub fn version_after(current: i32, pending: &Vec<i32>) -> (r: i32)
        ensures
            r == if pending@.len() > 0 {
                pending@.last()
            } else {
                current
            },
    {
        if pending.len() > 0 {
            pending[pending.len() - 1]
        } else {
            current
        }
    }
}

/// After its migrations a database has the current version, and needs no
/// further one.
pub proof fn migrations_reach_the_current_version(current: i32)
    requires
        current <= CURRENT_SCHEMA_VERSION,
    ensures
        pending_from(current).len() > 0 ==> pending_from(current).last() == CURRENT_SCHEMA_VERSION,
        pending_from(current).len() == 0 ==> current == CURRENT_SCHEMA_VERSION,
        pending_from(CURRENT_SCHEMA_VERSION).len() == 0,
{
}

/// The statements that migrate to `target`; `None` when there is no such
/// version.
pub fn migration_sql(target: i32) -> (r: Option<&'static str>)
    ensures
        r is Some <==> target == 1,
        r matches Some(s) ==> s@ == schema_v1(),
{
    if target == 1 {
        Some(
            "CREATE TABLE realms (id INTEGER PRIMARY KEY, name TEXT NOT NULL UNIQUE); CREATE TABLE users (id INTEGER PRIMARY KEY, realm_id INTEGER NOT NULL REFERENCES realms(id) ON DELETE CASCADE, username TEXT NOT NULL, password TEXT NOT NULL, UNIQUE(realm_id, username)); CREATE TABLE contacts (id INTEGER PRIMARY KEY, aor TEXT NOT NULL, contact TEXT NOT NULL, expires_at_unix INTEGER NOT NULL, UNIQUE(aor, contact)); CREATE INDEX contacts_by_aor ON contacts(aor); CREATE INDEX contacts_by_expiry ON contacts(expires_at_unix);",
        )
    } else {
        None
    }
}

/// The first version of the schema.
pub open spec fn schema_v1() -> Seq<char> {
    "CREATE TABLE realms (id INTEGER PRIMARY KEY, name TEXT NOT NULL UNIQUE); CREATE TABLE users (id INTEGER PRIMARY KEY, realm_id INTEGER NOT NULL REFERENCES realms(id) ON DELETE CASCADE, username TEXT NOT NULL, password TEXT NOT NULL, UNIQUE(realm_id, username)); CREATE TABLE contacts (id INTEGER PRIMARY KEY, aor TEXT NOT NULL, contact TEXT NOT NULL, expires_at_unix INTEGER NOT NULL, UNIQUE(aor, contact)); CREATE INDEX contacts_by_aor ON contacts(aor); CREATE INDEX contacts_by_expiry ON contacts(expires_at_unix);"@
}

} // verus!
