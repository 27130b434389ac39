use feth::ops::Error;
use feth::remote::{query_outcome, query_path, set_profiler, Configuration, ProfilerParam};

#[test]
fn the_profiler_request_names_the_profiler_and_no_module() {
    let parameters = serde_json::to_vec(&serde_json::Value::Bool(true)).unwrap();
    assert_eq!(
        set_profiler(parameters.clone()),
        Configuration {
            component: "profiler".to_string(),
            module: String::new(),
            submodule: String::new(),
            parameters,
        }
    );
    assert_eq!(set_profiler(Vec::new()).parameters, Vec::<u8>::new());
    assert!(ProfilerParam { enable: true }.enable);
}

#[test]
fn an_empty_path_is_no_path() {
    assert_eq!(query_path(""), None);
    assert_eq!(query_path("module/account/nonce"), Some("module/account/nonce".to_string()));
    assert_eq!(query_path(" "), Some(" ".to_string()));
}

#[test]
fn a_refused_query_quotes_code_and_log() {
    assert_eq!(query_outcome(false, "Ok", ""), Ok(()));
    assert_eq!(query_outcome(false, "Err(3)", "ignored"), Ok(()));
    assert_eq!(
        query_outcome(true, "Err(3)", "no such account"),
        Err(Error::Prism("error code: Err(3), log: no such account".to_string()))
    );
    assert_eq!(
        query_outcome(true, "", ""),
        Err(Error::Prism("error code: , log: ".to_string()))
    );
}
