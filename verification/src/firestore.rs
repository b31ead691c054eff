//! Addressing of the Firestore collection that mirrors the issues.

use vstd::prelude::*;
use vstd::string::StringExecFns;

verus! {

/// The Firestore project that issues are mirrored to, and the key that
/// opens it.
#[derive(Clone, Debug, PartialEq, Eq)]
pub struct Firestore {
    pub api_key: String,
    pub project_id: String,
}

/// What stands before the project's identifier in the address of the
/// issues collection.
pub const ISSUES_URL_HEAD: &'static str = "https://firestore.googleapis.com/v1/projects/";

/// What stands between the project's identifier and the key.
pub const ISSUES_URL_MIDDLE: &'static str = "/databases/(default)/documents/issues?key=";

impl Firestore {
    pub fn new(api_key: String, project_id: String) -> (firestore: Self)
        ensures
            firestore.api_key == api_key,
            firestore.project_id == project_id,
    {
        Self { api_key, project_id }
    }

    /// The address to which a new issue document is posted.
    pub open spec fn issues_url_spec(self) -> Seq<char> {
        ISSUES_URL_HEAD@ + self.project_id@ + ISSUES_URL_MIDDLE@ + self.api_key@
    }

    /// The address to which a new issue document is posted.
    pub fn issues_url(&self) -> (url: String)
        ensures
            url@ == self.issues_url_spec(),
    {
        let mut url = String::from_str(ISSUES_URL_HEAD);
        url.append(self.project_id.as_str());
        url.append(ISSUES_URL_MIDDLE);
        url.append(self.api_key.as_str());
        url
    }
}

} // verus!
