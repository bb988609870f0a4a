//! What a mod says of itself.

use vstd::prelude::*;

verus! {

/// What a mod says of itself. The library stores these fields and hands
/// them back; it reads nothing out of them.
pub struct Metadata {
    /// The displayed name of the mod.
    pub name: String,
    /// The authors of the mod.
    pub authors: Vec<String>,
    /// A description of the mod.
    pub description: String,
    /// The license of the mod.
    pub license: String,
    /// What the license permits.
    pub permission: LicensePermission,
}

/// What the license of a mod permits.
#[derive(Clone, Copy, Debug, PartialEq, Eq, Structural)]
pub enum LicensePermission {
    PublicDomain,
    FreeShareModUse,
    FreeShareUse,
    OtherLicense,
    StandardCopyright,
}

impl Default for LicensePermission {
    fn default() -> (r: LicensePermission)
        ensures
            r == LicensePermission::StandardCopyright,
    {
        LicensePermission::StandardCopyright
    }
}

impl Clone for Metadata {
    fn clone(&self) -> (r: Metadata)
        ensures
            r.name == self.name,
            r.authors@ == self.authors@,
            r.description == self.description,
            r.license == self.license,
            r.permission == self.permission,
    {
        let authors = self.authors.clone();
        assert(authors@ =~= self.authors@);
        Metadata {
            name: self.name.clone(),
            authors,
            description: self.description.clone(),
            license: self.license.clone(),
            permission: self.permission,
        }
    }
}

impl Default for Metadata {
    fn default() -> (r: Metadata)
        ensures
            r.name@ == Seq::<char>::empty(),
            r.authors@ == Seq::<String>::empty(),
            r.description@ == Seq::<char>::empty(),
            r.license@ == Seq::<char>::empty(),
            r.permission == LicensePermission::StandardCopyright,
    {
        Metadata {
            name: String::new(),
            authors: Vec::new(),
            description: String::new(),
            license: String::new(),
            permission: LicensePermission::StandardCopyright,
        }
    }
}

} // verus!
