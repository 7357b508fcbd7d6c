use vstd::prelude::*;

verus! {

/// Table option holding the id of the table's database.
pub const OPT_KEY_DATABASE_ID: &'static str = "database_id";

/// Table option holding the location of a snapshot in the legacy format.
pub const TABLE_OPT_KEY_LEGACY_SNAPSHOT_LOC: &'static str = "legacy_snapshot_loc";

/// Lower-case form of a string, as `str::to_lowercase` gives it.
pub uninterp spec fn lowercase_of(s: Seq<char>) -> Seq<char>;

/// Relies on `str::to_lowercase`: the result depends on the characters alone.
#[verifier::external_body]
fn lowercase(s: &str) -> (r: String)
    ensures
        r@ == lowercase_of(s@),
{
    s.to_lowercase()
}

/// The option keys reserved for internal use: users may not set them in DDL.
pub open spec fn is_reserved_key(k: Seq<char>) -> bool {
    k == OPT_KEY_DATABASE_ID@ || k == TABLE_OPT_KEY_LEGACY_SNAPSHOT_LOC@
}

/// The option keys not shown by `SHOW CREATE TABLE`.
pub open spec fn is_internal_key(k: Seq<char>) -> bool {
    k == TABLE_OPT_KEY_LEGACY_SNAPSHOT_LOC@ || k == OPT_KEY_DATABASE_ID@
}

fn equals_str(a: &String, b: &str) -> (r: bool)
    ensures
        r == (a@ == b@),
{
    let b_owned = b.to_owned();
    *a == b_owned
}

/// Whether an already lower-cased key is reserved.
pub fn is_reserved_lowercase_key(k: &String) -> (r: bool)
    ensures
        r == is_reserved_key(k@),
{
    equals_str(k, OPT_KEY_DATABASE_ID) || equals_str(k, TABLE_OPT_KEY_LEGACY_SNAPSHOT_LOC)
}

/// Whether an already lower-cased key is internal.
pub fn is_internal_lowercase_key(k: &String) -> (r: bool)
    ensures
        r == is_internal_key(k@),
{
    equals_str(k, TABLE_OPT_KEY_LEGACY_SNAPSHOT_LOC) || equals_str(k, OPT_KEY_DATABASE_ID)
}

/// Whether `opt_key`, in any letter case, is reserved for internal use.
pub fn is_reserved_opt_key(opt_key: &str) -> (r: bool)
    ensures
        r == is_reserved_key(lowercase_of(opt_key@)),
{
    let lowered = lowercase(opt_key);
    is_reserved_lowercase_key(&lowered)
}

/// Whether `opt_key`, in any letter case, is hidden from `SHOW CREATE TABLE`.
pub fn is_internal_opt_key(opt_key: &str) -> (r: bool)
    ensures
        r == is_internal_key(lowercase_of(opt_key@)),
{
    let lowered = lowercase(opt_key);
    is_internal_lowercase_key(&lowered)
}

} // verus!
