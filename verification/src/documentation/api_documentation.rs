//! The description of the HTTP interface.

use vstd::prelude::*;

verus! {

/// The description of the HTTP interface, as its OpenAPI document carries
/// it: what the interface is called, who answers for it, under which licence
/// it stands and where it is served.
#[derive(Debug, PartialEq, Eq)]
pub struct ApiDoc {
    pub title: String,
    pub version: String,
    pub description: String,
    pub contact_name: String,
    pub contact_email: String,
    pub license: String,
    pub server_url: String,
    pub server_description: String,
}

impl ApiDoc {
    /// The description of this service's interface.
    pub fn new() -> (doc: ApiDoc)
        ensures
            doc.title@ == "Mountain Backpackers CMS API Documentation"@,
            doc.version@ == "1.0.0"@,
            doc.description@ == "The API documentation for the Mountain Backpackers CMS."@,
            doc.contact_name@ == "Chairman"@,
            doc.contact_email@ == "chairman@mountainbackpackers.co.za"@,
            doc.license@ == "GPL-3.0"@,
            doc.server_url@ == "http://localhost:4000/api"@,
            doc.server_description@ == "Development Server"@,
    {
        ApiDoc {
            title: "Mountain Backpackers CMS API Documentation".to_owned(),
            version: "1.0.0".to_owned(),
            description: "The API documentation for the Mountain Backpackers CMS.".to_owned(),
            contact_name: "Chairman".to_owned(),
            contact_email: "chairman@mountainbackpackers.co.za".to_owned(),
            license: "GPL-3.0".to_owned(),
            server_url: "http://localhost:4000/api".to_owned(),
            server_description: "Development Server".to_owned(),
        }
    }
}

} // verus!
