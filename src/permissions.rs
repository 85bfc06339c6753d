//! Permission rules for the credential file: it must be readable and
//! writable by its owner only.

use vstd::prelude::*;

verus! {

/// The mode given to a credential file: owner read and write, nothing else.
pub const OWNER_READ_WRITE: u32 = 0o600;

/// The permission bits that grant access to the group or to others.
pub const SHARED_BITS: u32 = 0o077;

/// A mode grants access to the owner only.
pub open spec fn owner_only(mode: u32) -> bool {
    mode & SHARED_BITS == 0
}

/// The mode a file must be given, if any, so that only its owner can use it.
pub open spec fn repair_of(mode: u32) -> Option<u32> {
    if owner_only(mode) {
        None
    } else {
        Some(OWNER_READ_WRITE)
    }
}

/// The mode a file has once the repair (if any) has been applied.
pub open spec fn hardened(mode: u32) -> u32 {
    match repair_of(mode) {
        Some(m) => m,
        None => mode,
    }
}

/// Decides whether a file with permission `mode` must have its permissions
/// tightened, and to what. Checked on every load and after every save: the
/// provenance of a file found on disk is unknown, and it may be readable by
/// anyone.
pub fn permission_repair(mode: u32) -> (r: Option<u32>)
    ensures
        r == repair_of(mode),
{
    if mode & SHARED_BITS == 0 {
        None
    } else {
        Some(OWNER_READ_WRITE)
    }
}

/// Whatever mode a credential file was created or found with (whatever the
/// umask in effect, however old the file), once the repair is applied it
/// grants access to the owner only.
pub proof fn lemma_hardened_owner_only(mode: u32)
    ensures
        owner_only(hardened(mode)),
{
    assert(0o600u32 & 0o077u32 == 0) by (bit_vector);
}

/// A file that shares any access with the group or with others is always
/// repaired, and a file that does not is left as it is.
pub proof fn lemma_repair_exactly_when_shared(mode: u32)
    ensures
        repair_of(mode) is Some <==> (mode & 0o077 != 0),
        (mode & 0o004 != 0) ==> repair_of(mode) == Some(OWNER_READ_WRITE),
{
    assert((mode & 0o004u32 != 0) ==> (mode & 0o077u32 != 0)) by (bit_vector);
}

} // verus!
