//! Permission types for locally stored objects, and the project's own web addresses.
//!
//! Notebooks, workflows and env-var collections use `ContentEditability` to decide whether
//! their contents can be edited. The addresses here all point at the project's GitHub
//! repository: this build carries no web address of the upstream vendor.

use vstd::prelude::*;

verus! {

/// Where the user documentation lives.
pub const USER_DOCS_URL: &'static str = "https://github.com/nikolaypaskov/heddle#readme";

/// Where issues are reported.
pub const GITHUB_ISSUES_URL: &'static str = "https://github.com/nikolaypaskov/heddle/issues";

/// The privacy policy.
pub const PRIVACY_POLICY_URL: &'static str = "https://github.com/nikolaypaskov/heddle#readme";

/// Whether or not an object's contents are editable by the current user.
///
/// This is not purely a function of their access level since anonymous users are not
/// allowed to edit (due to the lack of attribution).
#[derive(Debug, Clone, Copy)]
pub enum ContentEditability {
    ReadOnly,
    RequiresLogin,
    Editable,
}

impl ContentEditability {
    /// Only `Editable` contents can be edited.
    pub fn can_edit(self) -> (r: bool)
        ensures
            r <==> self is Editable,
    {
        match self {
            ContentEditability::Editable => true,
            _ => false,
        }
    }
}

/// The address of the form for feedback: the project's issue chooser.
///
/// Deliberately carries no OS or app version: the build sends nothing the user did not
/// type themselves.
pub fn feedback_form_url() -> (r: String)
    ensures
        r@ == "https://github.com/nikolaypaskov/heddle/issues/new/choose"@,
{
    "https://github.com/nikolaypaskov/heddle/issues/new/choose".to_owned()
}

} // verus!
