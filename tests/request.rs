use localstorage::models::{ApiBody, Data, GetApi, Search, Session, User};
use localstorage::request::Requester;

#[test]
fn urls_for_each_endpoint() {
    let r = Requester::new("http://localhost:8080", "auth");
    assert_eq!(r.search_url(), "http://localhost:8080/api/auth");
    assert_eq!(r.validate_user_url(), "http://localhost:8080/auth/validate_user");
    assert_eq!(r.validate_session_url(), "http://localhost:8080/auth/validate_session");
    assert_eq!(r.get_url(), "http://localhost:8080/api/get/auth");
    assert_eq!(r.update_url(), "http://localhost:8080/api/update/auth");
    assert_eq!(r.delete_url(), "http://localhost:8080/api/delete/auth");
    assert_eq!(r.create_url(), "http://localhost:8080/api/create/auth");
}

#[test]
fn api_body_carries_session_and_data() {
    let body = ApiBody::new(Some("key".to_string()), Data { _id: "7".to_string() });
    assert_eq!(body.session().session_key, Some("key".to_string()));
    assert_eq!(body.data()._id, "7");
}

#[test]
fn models_default_to_empty() {
    let g: GetApi<Vec<u64>> = GetApi::default();
    assert!(g._id.is_none() && g.db.is_none() && g.data.is_empty());
    assert!(Session::default().session_key.is_none());
    assert!(User::default().username.is_none());
    assert!(Search::default().scope.is_empty());
}
