use vstd::prelude::*;
use vstd::string::StringExecFns;

verus! {

/// Mathematical image of a [`PermissionCreate`].
pub ghost struct PermissionCreateV {
    pub file_id: Seq<char>,
    pub role: Seq<char>,
    pub principal_type: Seq<char>,
}

/// One permission-create call owed to the gateway: grant `role` on the file
/// `file_id` to principals of kind `principal_type`.
pub struct PermissionCreate {
    pub file_id: String,
    pub role: String,
    pub principal_type: String,
}

impl View for PermissionCreate {
    type V = PermissionCreateV;

    open spec fn view(&self) -> PermissionCreateV {
        PermissionCreateV {
            file_id: self.file_id@,
            role: self.role@,
            principal_type: self.principal_type@,
        }
    }
}

/// The role a public sharing grant carries: read-only.
pub open spec fn share_role_spec() -> Seq<char> {
    "reader"@
}

/// The principal kind a public sharing grant addresses: anyone with the
/// link.
pub open spec fn share_principal_spec() -> Seq<char> {
    "anyone"@
}

/// The single permission-create call that shares `file_id` publicly: role
/// `reader`, principal type `anyone`, nothing else — no expiration and no
/// domain restriction. Sharing issues exactly this one call, whatever the
/// file's prior sharing state; the service may well create a second grant on
/// a second call, and no de-duplication is attempted.
pub fn share_request(file_id: &str) -> (r: PermissionCreate)
    ensures
        r@.file_id == file_id@,
        r@.role == share_role_spec(),
        r@.principal_type == share_principal_spec(),
{
    PermissionCreate {
        file_id: String::from_str(file_id),
        role: String::from_str("reader"),
        principal_type: String::from_str("anyone"),
    }
}

} // verus!
