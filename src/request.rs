use vstd::prelude::*;

verus! {

/// The address of a remote service and the dataset that requests go to.
pub struct Requester {
    base_url: String,
    target_db: String,
}

impl Requester {
    /// The base address.
    pub closed spec fn base(&self) -> Seq<char> {
        self.base_url@
    }

    /// The dataset name.
    pub closed spec fn target(&self) -> Seq<char> {
        self.target_db@
    }

    /// A requester for the dataset `target_db` of the service at `base_url`.
    pub fn new(base_url: &str, target_db: &str) -> (r: Requester)
        ensures
            r.base() == base_url@,
            r.target() == target_db@,
    {
        Requester { base_url: base_url.to_owned(), target_db: target_db.to_owned() }
    }

    /// The base address, then `path`, then the dataset name.
    fn dataset_after(&self, path: &str) -> (r: String)
        ensures
            r@ == self.base() + path@ + self.target(),
    {
        let mut r = self.base_url.clone();
        r.push_str(path);
        r.push_str(self.target_db.as_str());
        r
    }

    /// The base address, a slash, the dataset name, then `path`.
    fn dataset_before(&self, path: &str) -> (r: String)
        ensures
            r@ == self.base() + "/"@ + self.target() + path@,
    {
        let mut r = self.base_url.clone();
        r.push_str("/");
        r.push_str(self.target_db.as_str());
        r.push_str(path);
        r
    }

    /// Where search queries go.
    pub fn search_url(&self) -> (r: String)
        ensures
            r@ == self.base() + "/api/"@ + self.target(),
    {
        self.dataset_after("/api/")
    }

    /// Where credentials are checked.
    pub fn validate_user_url(&self) -> (r: String)
        ensures
            r@ == self.base() + "/"@ + self.target() + "/validate_user"@,
    {
        self.dataset_before("/validate_user")
    }

    /// Where session tokens are checked.
    pub fn validate_session_url(&self) -> (r: String)
        ensures
            r@ == self.base() + "/"@ + self.target() + "/validate_session"@,
    {
        self.dataset_before("/validate_session")
    }

    /// Where records are fetched.
    pub fn get_url(&self) -> (r: String)
        ensures
            r@ == self.base() + "/api/get/"@ + self.target(),
    {
        self.dataset_after("/api/get/")
    }

    /// Where records are updated.
    pub fn update_url(&self) -> (r: String)
        ensures
            r@ == self.base() + "/api/update/"@ + self.target(),
    {
        self.dataset_after("/api/update/")
    }

    /// Where records are deleted.
    pub fn delete_url(&self) -> (r: String)
        ensures
            r@ == self.base() + "/api/delete/"@ + self.target(),
    {
        self.dataset_after("/api/delete/")
    }

    /// Where records are created.
    pub fn create_url(&self) -> (r: String)
        ensures
            r@ == self.base() + "/api/create/"@ + self.target(),
    {
        self.dataset_after("/api/create/")
    }
}

} // verus!
