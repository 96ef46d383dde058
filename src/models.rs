use vstd::prelude::*;

verus! {

/// A session token issued by the remote service.
#[derive(Default, Debug, Clone)]
pub struct Session {
    pub session_key: Option<String>,
}

/// Credentials sent to the remote service.
#[derive(Default, Debug, Clone)]
pub struct User {
    pub username: Option<String>,
    pub password: Option<String>,
}

/// A search query: a term and the fields it looks in.
#[derive(Default, Debug, Clone)]
pub struct Search {
    pub search_term: String,
    pub scope: Vec<String>,
}

/// The envelope of a request: the caller's session and the payload.
#[derive(Default, Debug, Clone)]
pub struct ApiBody<V> {
    session: Session,
    data: V,
}

/// A request or response about one record of a dataset.
#[derive(Default, Debug, Clone)]
pub struct GetApi<V> {
    pub _id: Option<String>,
    pub db: Option<String>,
    pub data: V,
}

/// A record identifier.
#[derive(Default, Debug, Clone)]
pub struct Data<V> {
    pub _id: V,
}

impl<V> ApiBody<V> {
    /// The session key the envelope carries.
    pub closed spec fn spec_session_key(&self) -> Option<String> {
        self.session.session_key
    }

    /// The payload the envelope carries.
    pub closed spec fn spec_data(&self) -> V {
        self.data
    }

    /// An envelope of `data` under the session `session_key`.
    pub fn new(session_key: Option<String>, data: V) -> (r: Self)
        ensures
            r.spec_session_key() == session_key,
            r.spec_data() == data,
    {
        ApiBody { session: Session { session_key }, data }
    }

    /// The session of the envelope.
    pub fn session(&self) -> (r: &Session)
        ensures
            r.session_key == self.spec_session_key(),
    {
        &self.session
    }

    /// The payload of the envelope.
    pub fn data(&self) -> (r: &V)
        ensures
            *r == self.spec_data(),
    {
        &self.data
    }
}

} // verus!
