use svr::cfg::{
    cfg_dir_source, config_key, dir_problem, is_config_file, listeners_at, mysql_targets,
    redis_targets, CfgDirSource, CfgError, CfgRefreshEvent, DbConfig, DirProblem, EnvValue,
};
use svr::naming::{answers_as_response, fn_case_2_struct_case};
use svr::trace::{log_level, log_sinks, LogLevel, LogSinks};

fn s(x: &str) -> String {
    x.to_string()
}

#[test]
fn config_key_drops_last_extension() {
    assert_eq!(config_key("config.toml"), "config");
    assert_eq!(config_key("a.b.json"), "a.b");
    assert_eq!(config_key("noext"), "noext");
    assert_eq!(config_key(".toml"), "");
    assert_eq!(config_key("x."), "x");
}

#[test]
fn config_files_by_extension() {
    let formats = vec![s("toml"), s("json")];
    assert!(is_config_file(Some("toml"), &formats));
    assert!(is_config_file(Some("json"), &formats));
    assert!(!is_config_file(Some("yaml"), &formats));
    assert!(!is_config_file(None, &formats));
    assert!(is_config_file(None, &vec![s("")]));
}

#[test]
fn listeners_split_by_point_in_order() {
    let (b, a) = (CfgRefreshEvent::Before, CfgRefreshEvent::After);
    let ev = vec![b, a, b, a, a];
    assert_eq!(listeners_at(&ev, b), vec![0, 2]);
    assert_eq!(listeners_at(&ev, a), vec![1, 3, 4]);
    assert!(listeners_at(&vec![], b).is_empty());
}

#[test]
fn dir_checks_in_order() {
    assert!(matches!(dir_problem(false, false), Some(DirProblem::Missing)));
    assert!(matches!(dir_problem(false, true), Some(DirProblem::Missing)));
    assert!(matches!(dir_problem(true, false), Some(DirProblem::NotDir)));
    assert!(dir_problem(true, true).is_none());
}

#[test]
fn cfg_dir_source_decisions() {
    match cfg_dir_source(EnvValue::Present(s("/etc/cfg")), false) {
        Ok(CfgDirSource::Env(p)) => assert_eq!(p, "/etc/cfg"),
        _ => panic!("expected env path"),
    }
    assert!(matches!(cfg_dir_source(EnvValue::NotPresent, true), Ok(CfgDirSource::BesideExe)));
    match cfg_dir_source(EnvValue::NotPresent, false) {
        Err(CfgError::PathInvalid(m)) => assert_eq!(m, "exe dir error"),
        _ => panic!("expected exe dir error"),
    }
    match cfg_dir_source(EnvValue::NotUnicode(s("bad\u{fffd}")), true) {
        Err(CfgError::Other(m)) => assert_eq!(m, "bad\u{fffd}"),
        _ => panic!("expected other"),
    }
}

#[test]
fn db_targets_keep_order_and_kind() {
    let dbs = vec![
        DbConfig::Mysql { name: s("global"), url: s("mysql://a"), max_conn: 10 },
        DbConfig::Redis { name: s("cache"), url: s("redis://b") },
        DbConfig::Mysql { name: s("log"), url: s("mysql://c"), max_conn: 2 },
    ];
    assert_eq!(
        mysql_targets(&dbs),
        vec![(s("global"), s("mysql://a"), 10), (s("log"), s("mysql://c"), 2)]
    );
    assert_eq!(redis_targets(&dbs), vec![(s("cache"), s("redis://b"))]);
}

#[test]
fn log_level_names_and_numbers() {
    assert_eq!(log_level("debug"), LogLevel::Debug);
    assert_eq!(log_level("WARN"), LogLevel::Warn);
    assert_eq!(log_level("Error"), LogLevel::Error);
    assert_eq!(log_level("5"), LogLevel::Trace);
    assert_eq!(log_level("+001"), LogLevel::Error);
    assert_eq!(log_level("6"), LogLevel::Info);
    assert_eq!(log_level("verbose"), LogLevel::Info);
    assert_eq!(log_level("trace"), LogLevel::Trace);
    assert_eq!(log_level("4"), LogLevel::Debug);
}

#[test]
fn log_sinks_by_flags() {
    assert_eq!(log_sinks(true, true), Some(LogSinks::StdoutAndFile));
    assert_eq!(log_sinks(true, false), Some(LogSinks::StdoutOnly));
    assert_eq!(log_sinks(false, true), Some(LogSinks::FileOnly));
    assert_eq!(log_sinks(false, false), None);
}

#[test]
fn snake_to_camel() {
    assert_eq!(fn_case_2_struct_case("hello_world"), "HelloWorld");
    assert_eq!(fn_case_2_struct_case("not_impl"), "NotImpl");
    assert_eq!(fn_case_2_struct_case("a__b"), "AB");
    assert_eq!(fn_case_2_struct_case("_x_"), "X");
    assert_eq!(fn_case_2_struct_case(""), "");
    assert_eq!(fn_case_2_struct_case("straße_x"), "StraßeX");
    assert_eq!(fn_case_2_struct_case("ßx"), "SSx");
}

#[test]
fn response_impls_for_req_and_resp() {
    assert!(answers_as_response("HelloReq"));
    assert!(answers_as_response("HelloResp"));
    assert!(!answers_as_response("CsMessage"));
    assert!(!answers_as_response("Re"));
    assert!(answers_as_response("Req"));
}
