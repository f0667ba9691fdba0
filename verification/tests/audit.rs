use overslash_api::audit::{default_limit, list_param, q_param, resolve_risks, split_q_terms, text_param};
use overslash_api::error::ApiError;

#[test]
fn page_size_defaults_to_fifty() {
    assert_eq!(default_limit(), 50);
}

#[test]
fn q_terms_split_on_unescaped_commas() {
    assert_eq!(split_q_terms("New York\\, NY"), vec!["New York, NY"]);
    assert_eq!(split_q_terms("a, b ,,c"), vec!["a", "b", "c"]);
    assert_eq!(split_q_terms("C:\\path"), vec!["C:\\path"]);
    assert_eq!(split_q_terms("back\\\\slash"), vec!["back\\slash"]);
    assert_eq!(split_q_terms("trail\\"), vec!["trail\\"]);
    assert_eq!(split_q_terms("  "), Vec::<String>::new());
    assert_eq!(split_q_terms(""), Vec::<String>::new());
}

#[test]
fn q_terms_round_trip_through_escaping() {
    let terms = ["New York, NY", "C:\\dir", "plain"];
    let joined: Vec<String> = terms
        .iter()
        .map(|t| t.replace('\\', "\\\\").replace(',', "\\,"))
        .collect();
    assert_eq!(split_q_terms(&joined.join(",")), terms.to_vec());
}

#[test]
fn list_params() {
    assert_eq!(list_param(Some("user, agent ,")), Some(vec!["user".to_string(), "agent".to_string()]));
    assert_eq!(list_param(Some(" , ")), None);
    assert_eq!(list_param(None), None);
    assert_eq!(q_param(Some(",")), None);
    assert_eq!(q_param(Some("x")), Some(vec!["x".to_string()]));
    assert_eq!(text_param(Some(String::new())), None);
    assert_eq!(text_param(Some("a".into())), Some("a".to_string()));
}

#[test]
fn risk_filters() {
    assert_eq!(resolve_risks(None, None), Ok(None));
    assert_eq!(resolve_risks(Some("  "), Some("")), Ok(None));
    assert_eq!(resolve_risks(Some("write, delete"), None), Ok(Some(vec!["write".to_string(), "delete".to_string()])));
    assert_eq!(resolve_risks(None, Some("write")), Ok(Some(vec!["write".to_string(), "delete".to_string()])));
    assert_eq!(resolve_risks(Some("read,write"), Some("write")), Ok(Some(vec!["write".to_string()])));
    assert_eq!(resolve_risks(Some("read"), Some("write")), Ok(Some(vec![])));
}

#[test]
fn unknown_risk_is_a_bad_request() {
    assert_eq!(
        resolve_risks(Some("read, bogus"), None),
        Err(ApiError::BadRequest("unknown risk `bogus` — expected read, write or delete".into()))
    );
    assert_eq!(
        resolve_risks(None, Some(" huge ")),
        Err(ApiError::BadRequest("unknown risk `huge` — expected read, write or delete".into()))
    );
    assert_eq!(resolve_risks(Some("x"), Some("y")).unwrap_err().status(), 400);
}
