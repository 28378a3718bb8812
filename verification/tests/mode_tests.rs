use rsop::config::default_file_handler_wait;
use rsop::config::parse_config;
use rsop::config::Config;
use rsop::config::FileHandler;
use rsop::config::Filetype;
use rsop::error::HandlerError;
use rsop::mode::mode_from_bin_name;
use rsop::mode::mode_from_str;
use rsop::mode::mode_name;
use rsop::mode::runtime_mode;
use rsop::mode::RsopMode;

#[test]
fn test_mode_from_str_case_insensitive() {
    assert_eq!(mode_from_str("preview"), Some(RsopMode::Preview));
    assert_eq!(mode_from_str("PREVIEW"), Some(RsopMode::Preview));
    assert_eq!(mode_from_str("Open"), Some(RsopMode::Open));
    assert_eq!(mode_from_str("xdg-open"), Some(RsopMode::XdgOpen));
    assert_eq!(mode_from_str("Edit"), Some(RsopMode::Edit));
    assert_eq!(mode_from_str("identify"), Some(RsopMode::Identify));
    assert_eq!(mode_from_str("banana"), None);
    assert_eq!(mode_from_str(""), None);
}

#[test]
fn test_mode_from_bin_name_exact() {
    assert_eq!(mode_from_bin_name("rsp"), Some(RsopMode::Preview));
    assert_eq!(mode_from_bin_name("rso"), Some(RsopMode::Open));
    assert_eq!(mode_from_bin_name("xdg-open"), Some(RsopMode::XdgOpen));
    assert_eq!(mode_from_bin_name("rse"), Some(RsopMode::Edit));
    assert_eq!(mode_from_bin_name("rsi"), Some(RsopMode::Identify));
    assert_eq!(mode_from_bin_name("RSP"), None);
    assert_eq!(mode_from_bin_name("cat"), None);
}

#[test]
fn test_mode_name_round_trip() {
    for mode in [
        RsopMode::Preview,
        RsopMode::Open,
        RsopMode::XdgOpen,
        RsopMode::Edit,
        RsopMode::Identify,
    ] {
        let name = mode_name(&mode);
        assert_eq!(mode_from_str(&name), Some(mode));
    }
}

#[test]
fn test_runtime_mode_priorities() {
    // The environment value wins over the binary name.
    assert_eq!(runtime_mode(Some("edit"), Some("rsp")).unwrap(), RsopMode::Edit);
    // Without it the binary name decides.
    assert_eq!(runtime_mode(None, Some("rsi")).unwrap(), RsopMode::Identify);
    // An unknown binary name falls back to the default mode.
    assert_eq!(runtime_mode(None, Some("bash")).unwrap(), RsopMode::Open);
    assert_eq!(runtime_mode(None, None).unwrap(), RsopMode::Open);
    // A bad environment value is an error.
    assert!(matches!(
        runtime_mode(Some("bogus"), Some("rsp")),
        Err(HandlerError::Other(_))
    ));
}

#[test]
fn test_default_file_handler_wait() {
    assert!(default_file_handler_wait());
}

#[test]
fn test_parse_config_lowercases_extensions() {
    let cfg = Config {
        filetype: vec![(
            "ft".to_owned(),
            Filetype {
                extensions: vec!["TAR.GZ".to_owned(), "Log".to_owned()],
                mimes: vec!["Text/Plain".to_owned()],
            },
        )],
        handler_preview: vec![],
        default_handler_preview: FileHandler {
            command: "file %i".to_owned(),
            wait: true,
            shell: false,
            no_pipe: false,
            stdin_arg: None,
        },
        handler_open: vec![],
        default_handler_open: FileHandler {
            command: "cat -A %i".to_owned(),
            wait: true,
            shell: false,
            no_pipe: false,
            stdin_arg: None,
        },
        handler_edit: vec![],
        filter: vec![],
        handler_scheme: vec![],
    };
    let normalized = parse_config(cfg);
    assert_eq!(normalized.filetype.len(), 1);
    assert_eq!(normalized.filetype[0].0, "ft");
    assert_eq!(
        normalized.filetype[0].1.extensions,
        vec!["tar.gz".to_owned(), "log".to_owned()]
    );
    // MIME types are kept as they are.
    assert_eq!(normalized.filetype[0].1.mimes, vec!["Text/Plain".to_owned()]);
}

#[test]
fn test_error_messages() {
    assert_eq!(
        HandlerError::Other("unmatched scheme".to_owned()).message(),
        "unmatched scheme"
    );
    assert_eq!(
        HandlerError::Start { cmd: vec!["x".to_owned()] }.message(),
        "failed to run handler command"
    );
    assert_eq!(
        HandlerError::Input { path: "/tmp/gone".to_owned() }.message(),
        "failed to read input file /tmp/gone"
    );
    assert_eq!(HandlerError::Io.message(), "input/output error");
}
