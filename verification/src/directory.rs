//! The institution directory: resolves an institution id to its recorded
//! administrator. The engine only reads it; it is populated by whoever hosts
//! the engine.

use vstd::prelude::*;

use crate::errors::Error;
use crate::primitives::AccountId;
use crate::primitives::UniqId;
use crate::umap::UniMap;

verus! {

/// Maps an institution id to the administrator identity that owns the right
/// to act for the institution.
pub struct InstitutionDirectory {
    admins: UniMap<AccountId>,
}

impl View for InstitutionDirectory {
    type V = Map<UniqId, AccountId>;

    closed spec fn view(&self) -> Map<UniqId, AccountId> {
        self.admins@
    }
}

impl InstitutionDirectory {
    pub closed spec fn wf(&self) -> bool {
        self.admins.wf()
    }

    /// An empty directory.
    pub fn new() -> (r: Self)
        ensures
            r.wf(),
            r@ == Map::<UniqId, AccountId>::empty(),
    {
        InstitutionDirectory { admins: UniMap::new() }
    }

    /// Records an institution's administrator, replacing any earlier record.
    pub fn register_university(&mut self, university_id: UniqId, admin: AccountId)
        requires
            old(self).wf(),
        ensures
            final(self).wf(),
            final(self)@ == old(self)@.insert(university_id, admin),
    {
        self.admins.upsert(university_id, admin);
    }

    /// Resolves an institution id to its administrator.
    pub fn university_admin(&self, university_id: UniqId) -> (r: Option<AccountId>)
        requires
            self.wf(),
        ensures
            r == if self@.dom().contains(university_id) {
                Some(self@[university_id])
            } else {
                None::<AccountId>
            },
    {
        self.admins.get(university_id)
    }
}

/// What the authorization check decides: unknown institutions are refused
/// before the caller is compared with the recorded administrator.
pub open spec fn spec_ensure_admin(
    directory: Map<UniqId, AccountId>,
    caller: AccountId,
    university_id: UniqId,
) -> Result<(), Error> {
    if !directory.dom().contains(university_id) {
        Err(Error::NoSuchInstitution)
    } else if directory[university_id] != caller {
        Err(Error::InsufficientPermission)
    } else {
        Ok(())
    }
}

/// Fails with `NoSuchInstitution` when the institution is unknown and with
/// `InsufficientPermission` when the caller is not its recorded
/// administrator. Used by every institution-privileged operation.
pub fn ensure_institution_admin(
    directory: &InstitutionDirectory,
    caller: AccountId,
    university_id: UniqId,
) -> (r: Result<(), Error>)
    requires
        directory.wf(),
    ensures
        r == spec_ensure_admin(directory@, caller, university_id),
{
    match directory.university_admin(university_id) {
        None => Err(Error::NoSuchInstitution),
        Some(admin) => {
            if admin != caller {
                Err(Error::InsufficientPermission)
            } else {
                Ok(())
            }
        },
    }
}

} // verus!
