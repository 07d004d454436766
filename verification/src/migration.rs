//! Versions of configuration documents: the `config_version` field, and the
//! migrations that bring an older document to the current version.
use vstd::prelude::*;

use crate::json::{as_u64, get, put, Json, JsonValue};

verus! {

/// The current configuration version; a migration raises it.
pub const CURRENT_CONFIG_VERSION: u32 = 1;

/// The field that holds a document's version.
pub open spec fn version_key() -> Seq<char> {
    "config_version"@
}

/// The version that a document records: its `config_version` as an
/// unsigned integer taken to 32 bits, or 0 where it has none.
pub open spec fn stored_version(v: Json) -> u32 {
    match get(v, version_key()) {
        Some(n) => match as_u64(n) {
            Some(x) => (x % 0x1_0000_0000) as u32,
            None => 0,
        },
        None => 0,
    }
}

/// The document with its version set to the current one (an object gets
/// the field; any other value stays as it is).
pub open spec fn stamped(v: Json) -> Json {
    put(v, version_key(), Json::Number(crate::text::decimal(CURRENT_CONFIG_VERSION as nat)))
}

/// The version that a document records.
pub fn config_version(value: &JsonValue) -> (r: u32)
    ensures
        r == stored_version(value@),
{
    match value.get("config_version") {
        Some(n) => match n.as_u64() {
            Some(x) => (x % 0x1_0000_0000) as u32,
            None => 0,
        },
        None => 0,
    }
}

/// Whether a document is older than the current version.
pub fn needs_migration(value: &JsonValue) -> (r: bool)
    ensures
        r == (stored_version(value@) < CURRENT_CONFIG_VERSION),
{
    config_version(value) < CURRENT_CONFIG_VERSION
}

/// Stamps the version field of an object.
fn stamp_version(value: &mut JsonValue, version: u32)
    ensures
        final(value)@ == put(
            old(value)@,
            version_key(),
            Json::Number(crate::text::decimal(version as nat)),
        ),
{
    if let JsonValue::Object(_) = value {
        value.put("config_version", JsonValue::from_u64(version as u64));
    }
}

/// Migrates a document from the version it records to the current one:
/// the migrated document, and whether any migration was applied. Version 1
/// only stamps the version field; a document at or past the current
/// version gets its field set to the current version too.
pub fn migrate_config(value: JsonValue) -> (r: (JsonValue, bool))
    ensures
        r.0@ == stamped(value@),
        r.1 == (stored_version(value@) < CURRENT_CONFIG_VERSION),
{
    let mut value = value;
    let stored = config_version(&value);
    if stored >= CURRENT_CONFIG_VERSION {
        stamp_version(&mut value, CURRENT_CONFIG_VERSION);
        return (value, false);
    }
    let mut version = stored;
    let mut migrated = false;
    let ghost original = value@;
    while version < CURRENT_CONFIG_VERSION
        invariant
            version <= CURRENT_CONFIG_VERSION,
            version == 0 ==> value@ == original && !migrated,
            version == CURRENT_CONFIG_VERSION ==> value@ == stamped(original) && migrated,
        decreases CURRENT_CONFIG_VERSION - version,
    {
        // From version 0 (no version field) to version 1: the version is
        // stamped; there is no change of structure.
        stamp_version(&mut value, 1);
        version = 1;
        migrated = true;
    }
    (value, migrated)
}

/// Migrating is idempotent: a migrated document needs no further migration,
/// records the current version where it is an object, and migrating it again
/// changes nothing.
pub proof fn law_migration_idempotent(v: Json)
    ensures
        v is Object ==> stored_version(stamped(v)) == CURRENT_CONFIG_VERSION,
        stamped(stamped(v)) == stamped(v),
{
    let n = Json::Number(crate::text::decimal(1));
    assert(crate::text::decimal(1) == seq!['1']) by {
        reveal_with_fuel(crate::text::decimal, 2);
    }
    match v {
        Json::Object(fs) => {
            crate::json::lemma_field_index(fs, version_key());
            let fs2 = crate::json::set_field(fs, version_key(), n);
            crate::json::lemma_field_index(fs2, version_key());
            match crate::json::field_index(fs, version_key()) {
                Some(i) => {
                    assert(forall|k: int| 0 <= k < i ==> fs2[k] == fs[k]);
                    crate::json::lemma_field_at(fs2, version_key(), i);
                },
                None => {
                    assert(forall|k: int| 0 <= k < fs.len() ==> fs2[k] == fs[k]);
                    crate::json::lemma_field_at(fs2, version_key(), fs.len() as int);
                },
            }
            let j = crate::json::field_index(fs2, version_key())->Some_0;
            assert(fs2.update(j, (version_key(), n)) =~= fs2);
            assert(crate::json::number_u64(seq!['1']) == Some(1u64)) by {
                assert(crate::config_loader::digits_value(seq!['1']) == 1) by {
                    assert(seq!['1'].drop_last() =~= Seq::<char>::empty());
                    reveal_with_fuel(crate::config_loader::digits_value, 2);
                }
            }
        },
        _ => {},
    }
}

} // verus!
