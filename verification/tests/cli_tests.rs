use dombuilder::cli::{check_args, classify_flag, get_args, help, CliConfig, CliError, Flag};

fn args(v: &[&str]) -> Vec<String> {
    v.iter().map(|s| s.to_string()).collect()
}

fn accepted(a: &Vec<String>) -> CliConfig {
    assert!(check_args(a).is_ok());
    get_args(a)
}

#[test]
fn defaults() {
    let c = accepted(&args(&["prog"]));
    assert!(!c.debug);
    assert_eq!(c.max_servers, "10");
    assert!(c.help.is_none());
    assert!(help(&c).is_none());
}

#[test]
fn flags_and_values() {
    let c = accepted(&args(&["prog", "-debug", "-m_s", "5"]));
    assert!(c.debug);
    assert_eq!(c.max_servers, "5");
    let c = accepted(&args(&["prog", "-MAX_SERVERS", "-DBG", "7", "stray"]));
    assert!(c.debug);
    assert_eq!(c.max_servers, "7");
    let c = accepted(&args(&["prog", "-max_servers", "1", "-max_servers", "2"]));
    assert_eq!(c.max_servers, "2");
}

#[test]
fn invalid_flag_is_refused() {
    let e = check_args(&args(&["prog", "-Verbose"])).unwrap_err();
    match &e {
        CliError::InvalidFlag(f) => assert_eq!(f, "verbose"),
        _ => panic!("wrong error"),
    }
    assert_eq!(e.message(), "\"verbose\" is not a valid flag!");
    let e = check_args(&args(&["prog", "-"])).unwrap_err();
    assert_eq!(e.message(), "\"\" is not a valid flag!");
}

#[test]
fn flag_without_value_is_refused() {
    let e = check_args(&args(&["prog", "-m_s"])).unwrap_err();
    assert_eq!(
        e.message(),
        "The flag \"max_servers\" must be followed by a value use \"-help max_servers\" for more info."
    );
}

#[test]
fn help_requests() {
    let c = accepted(&args(&["prog", "-h"]));
    assert_eq!(c.help.as_deref(), Some(""));
    assert!(help(&c).unwrap().starts_with("-----------------\nAvailable Flags :"));
    let c = accepted(&args(&["prog", "-help", "m_s"]));
    assert!(help(&c).unwrap().starts_with("--------------------------\nmax_servers (default=10) :"));
    let c = accepted(&args(&["prog", "-help", "dbg"]));
    let t = help(&c).unwrap();
    assert!(t.starts_with("-----------------------\ndebug (default=false) :"));
    assert!(t.ends_with("debug mode will be disabled.\n"));
    // The help value is taken as written.
    let c = accepted(&args(&["prog", "-help", "DEBUG"]));
    assert!(help(&c).unwrap().starts_with("-----------------\nAvailable Flags :"));
}

#[test]
fn flag_names() {
    assert_eq!(classify_flag("m_s"), Some(Flag::MaxServers));
    assert_eq!(classify_flag("h"), Some(Flag::Help));
    assert_eq!(classify_flag("d"), Some(Flag::Debug));
    assert_eq!(classify_flag("D"), None);
}
