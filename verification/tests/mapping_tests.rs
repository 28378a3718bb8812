use rsop::config::Config;
use rsop::config::FileFilter;
use rsop::config::FileHandler;
use rsop::config::Filetype;
use rsop::config::SchemeHandler;
use rsop::dispatch::PathPostPlan;
use rsop::dispatch::PathPrePlan;
use rsop::dispatch::PipePlan;
use rsop::dispatch::UrlParts;
use rsop::error::HandlerError;
use rsop::mapping::FileProcessor;
use rsop::mapping::HandlerMapping;
use rsop::mode::RsopMode;

fn handler(command: &str) -> FileHandler {
    FileHandler {
        command: command.to_owned(),
        wait: true,
        shell: false,
        no_pipe: false,
        stdin_arg: None,
    }
}

fn empty_config() -> Config {
    Config {
        filetype: vec![],
        handler_preview: vec![],
        default_handler_preview: handler("file %i"),
        handler_open: vec![],
        default_handler_open: handler("cat -A %i"),
        handler_edit: vec![],
        filter: vec![],
        handler_scheme: vec![],
    }
}

#[test]
fn test_has_pattern() {
    let mut handler = FileHandler {
        command: "a ii".to_owned(),
        wait: false,
        shell: false,
        no_pipe: false,
        stdin_arg: Some(String::new()),
    };
    let mut processor = FileProcessor::Handler(handler.clone());
    assert!(!processor.has_pattern('m'));
    assert!(!processor.has_pattern('i'));

    handler.command = "a %i".to_owned();
    processor = FileProcessor::Handler(handler.clone());
    assert!(!processor.has_pattern('m'));
    assert!(processor.has_pattern('i'));

    handler.command = "a %%i".to_owned();
    processor = FileProcessor::Handler(handler);
    assert!(!processor.has_pattern('m'));
    assert!(!processor.has_pattern('i'));
}

#[test]
fn test_validate_handler_rejects_no_pipe_without_wait() {
    let h = FileHandler {
        command: "x %i".to_owned(),
        wait: false,
        shell: false,
        no_pipe: true,
        stdin_arg: None,
    };
    assert!(matches!(
        HandlerMapping::validate_handler(&h),
        Err(HandlerError::Other(_))
    ));
}

#[test]
fn test_validate_handler_rejects_piped_double_placeholder() {
    let h = FileHandler {
        command: "diff %i %i".to_owned(),
        wait: true,
        shell: false,
        no_pipe: false,
        stdin_arg: None,
    };
    assert!(matches!(
        HandlerMapping::validate_handler(&h),
        Err(HandlerError::Other(_))
    ));
    let ok = FileHandler {
        command: "diff %i %i".to_owned(),
        wait: true,
        shell: false,
        no_pipe: true,
        stdin_arg: None,
    };
    assert!(HandlerMapping::validate_handler(&ok).is_ok());
}

#[test]
fn test_new_rejects_invalid_handler() {
    let mut cfg = empty_config();
    cfg.filetype.push((
        "ft".to_owned(),
        Filetype { extensions: vec!["abc".to_owned()], mimes: vec![] },
    ));
    cfg.handler_open.push((
        "ft".to_owned(),
        FileHandler {
            command: "x %i".to_owned(),
            wait: false,
            shell: false,
            no_pipe: true,
            stdin_arg: None,
        },
    ));
    assert!(matches!(HandlerMapping::new(&cfg), Err(HandlerError::Other(_))));
}

#[test]
fn test_new_rejects_piped_filter_with_two_placeholders() {
    let mut cfg = empty_config();
    cfg.filetype.push((
        "ft".to_owned(),
        Filetype { extensions: vec!["abc".to_owned()], mimes: vec![] },
    ));
    cfg.filter.push((
        "ft".to_owned(),
        FileFilter {
            command: "merge %i %i".to_owned(),
            shell: false,
            no_pipe: false,
            stdin_arg: None,
        },
    ));
    assert!(matches!(HandlerMapping::new(&cfg), Err(HandlerError::Other(_))));
}

#[test]
fn test_new_rejects_unbound_filetype() {
    let mut cfg = empty_config();
    cfg.filetype.push((
        "lonely".to_owned(),
        Filetype { extensions: vec!["abc".to_owned()], mimes: vec![] },
    ));
    assert!(matches!(HandlerMapping::new(&cfg), Err(HandlerError::Other(_))));
}

#[test]
fn test_open_mode_falls_back_to_edit_table() {
    // A filetype bound only in the edit table is still found when
    // dispatching in open mode, before the default handler is reached.
    let mut cfg = empty_config();
    cfg.filetype.push((
        "code".to_owned(),
        Filetype { extensions: vec!["abc".to_owned()], mimes: vec![] },
    ));
    cfg.handler_edit.push(("code".to_owned(), handler("editor %i")));
    let m = HandlerMapping::new(&cfg).unwrap();
    match m.dispatch_path_by_extension(&RsopMode::Open, "/tmp/x.abc") {
        PathPrePlan::RunExtension { processor, wants_mime } => {
            assert!(!wants_mime);
            match &m.processors[processor] {
                FileProcessor::Handler(h) => assert_eq!(h.command, "editor %i"),
                FileProcessor::Filter(_) => panic!("expected the edit handler"),
            }
        },
        PathPrePlan::NeedMime => panic!("expected an extension match"),
    }
}

#[test]
fn test_extension_resolution_is_candidate_major() {
    // Candidates are tried in order, each against the active table and
    // then the fallback table: the more specific `tar.gz`, bound only in
    // the fallback (edit) table, beats the active table's `gz`.
    let mut cfg = empty_config();
    cfg.filetype.push((
        "gzip".to_owned(),
        Filetype { extensions: vec!["gz".to_owned()], mimes: vec![] },
    ));
    cfg.filetype.push((
        "tarball".to_owned(),
        Filetype { extensions: vec!["tar.gz".to_owned()], mimes: vec![] },
    ));
    cfg.handler_open.push(("gzip".to_owned(), handler("gunzip %i")));
    cfg.handler_edit.push(("tarball".to_owned(), handler("untar %i")));
    let m = HandlerMapping::new(&cfg).unwrap();
    match m.dispatch_path_by_extension(&RsopMode::Open, "foo.tar.gz") {
        PathPrePlan::RunExtension { processor, .. } => match &m.processors[processor] {
            FileProcessor::Handler(h) => assert_eq!(h.command, "untar %i"),
            FileProcessor::Filter(_) => panic!("expected a handler"),
        },
        PathPrePlan::NeedMime => panic!("expected an extension match"),
    }
}

#[test]
fn test_preview_mode_has_no_fallback_table() {
    let mut cfg = empty_config();
    cfg.filetype.push((
        "code".to_owned(),
        Filetype { extensions: vec!["abc".to_owned()], mimes: vec![] },
    ));
    cfg.handler_edit.push(("code".to_owned(), handler("editor %i")));
    let m = HandlerMapping::new(&cfg).unwrap();
    assert!(matches!(
        m.dispatch_path_by_extension(&RsopMode::Preview, "/tmp/x.abc"),
        PathPrePlan::NeedMime
    ));
}

#[test]
fn test_wants_mime_reported_for_extension_match() {
    let mut cfg = empty_config();
    cfg.filetype.push((
        "img".to_owned(),
        Filetype { extensions: vec!["png".to_owned()], mimes: vec![] },
    ));
    cfg.handler_open.push(("img".to_owned(), handler("show --type %m %i")));
    let m = HandlerMapping::new(&cfg).unwrap();
    match m.dispatch_path_by_extension(&RsopMode::Open, "pic.png") {
        PathPrePlan::RunExtension { wants_mime, .. } => assert!(wants_mime),
        PathPrePlan::NeedMime => panic!("expected an extension match"),
    }
}

#[test]
fn test_later_filetype_overrides_extension_binding() {
    let mut cfg = empty_config();
    cfg.filetype.push((
        "first".to_owned(),
        Filetype { extensions: vec!["abc".to_owned()], mimes: vec![] },
    ));
    cfg.filetype.push((
        "second".to_owned(),
        Filetype { extensions: vec!["abc".to_owned()], mimes: vec![] },
    ));
    cfg.handler_open.push(("first".to_owned(), handler("one %i")));
    cfg.handler_open.push(("second".to_owned(), handler("two %i")));
    let m = HandlerMapping::new(&cfg).unwrap();
    match m.dispatch_path_by_extension(&RsopMode::Open, "x.abc") {
        PathPrePlan::RunExtension { processor, .. } => match &m.processors[processor] {
            FileProcessor::Handler(h) => assert_eq!(h.command, "two %i"),
            FileProcessor::Filter(_) => panic!("expected a handler"),
        },
        PathPrePlan::NeedMime => panic!("expected an extension match"),
    }
}

#[test]
fn test_filter_overrides_handler_for_same_filetype() {
    let mut cfg = empty_config();
    cfg.filetype.push((
        "arch".to_owned(),
        Filetype { extensions: vec!["zst".to_owned()], mimes: vec![] },
    ));
    cfg.handler_open.push(("arch".to_owned(), handler("plain %i")));
    cfg.filter.push((
        "arch".to_owned(),
        FileFilter {
            command: "zstdcat %i".to_owned(),
            shell: false,
            no_pipe: false,
            stdin_arg: None,
        },
    ));
    let m = HandlerMapping::new(&cfg).unwrap();
    match m.dispatch_path_by_extension(&RsopMode::Open, "a.zst") {
        PathPrePlan::RunExtension { processor, .. } => match &m.processors[processor] {
            FileProcessor::Filter(f) => assert_eq!(f.command, "zstdcat %i"),
            FileProcessor::Handler(_) => panic!("the filter binds after the handler"),
        },
        PathPrePlan::NeedMime => panic!("expected an extension match"),
    }
}

#[test]
fn test_dispatch_path_by_mime_matches_sub_mime() {
    let mut cfg = empty_config();
    cfg.filetype.push((
        "anytext".to_owned(),
        Filetype { extensions: vec![], mimes: vec!["text".to_owned()] },
    ));
    cfg.handler_open.push(("anytext".to_owned(), handler("less %i")));
    let m = HandlerMapping::new(&cfg).unwrap();
    match m.dispatch_path_by_mime(&RsopMode::Open, Some("text/x-readme")).unwrap() {
        PathPostPlan::RunMime { processor, sub_mime } => {
            assert_eq!(sub_mime, "text");
            match &m.processors[processor] {
                FileProcessor::Handler(h) => assert_eq!(h.command, "less %i"),
                FileProcessor::Filter(_) => panic!("expected a handler"),
            }
        },
        _ => panic!("expected a MIME match"),
    }
}

#[test]
fn test_dispatch_path_by_mime_default() {
    let m = HandlerMapping::new(&empty_config()).unwrap();
    match m.dispatch_path_by_mime(&RsopMode::Open, Some("application/x-thing")).unwrap() {
        PathPostPlan::RunDefault { handler } => assert_eq!(handler.command, "cat -A %i"),
        _ => panic!("expected the default handler"),
    }
    match m.dispatch_path_by_mime(&RsopMode::Preview, None).unwrap() {
        PathPostPlan::RunDefault { handler } => assert_eq!(handler.command, "file %i"),
        _ => panic!("expected the default handler"),
    }
}

#[test]
fn test_dispatch_path_by_mime_identify() {
    let m = HandlerMapping::new(&empty_config()).unwrap();
    match m.dispatch_path_by_mime(&RsopMode::Identify, Some("text/plain")).unwrap() {
        PathPostPlan::PrintMime(s) => assert_eq!(s, "text/plain"),
        _ => panic!("identify prints the MIME type"),
    }
    assert!(matches!(
        m.dispatch_path_by_mime(&RsopMode::Identify, None),
        Err(HandlerError::Other(_))
    ));
}

#[test]
fn test_dispatch_pipe_with_mime() {
    let mut cfg = empty_config();
    cfg.filetype.push((
        "json".to_owned(),
        Filetype { extensions: vec![], mimes: vec!["application/json".to_owned()] },
    ));
    cfg.handler_open.push(("json".to_owned(), handler("jq .")));
    let m = HandlerMapping::new(&cfg).unwrap();
    match m.dispatch_pipe_with_mime(&RsopMode::Open, "application/json") {
        PipePlan::Run { processor, sub_mime } => {
            assert_eq!(sub_mime, "application/json");
            match &m.processors[processor] {
                FileProcessor::Handler(h) => assert_eq!(h.command, "jq ."),
                FileProcessor::Filter(_) => panic!("expected a handler"),
            }
        },
        _ => panic!("expected a MIME match"),
    }
    match m.dispatch_pipe_with_mime(&RsopMode::Open, "video/x-unknown") {
        PipePlan::RunDefault { handler, mime } => {
            assert_eq!(handler.command, "cat -A %i");
            assert_eq!(mime, "video/x-unknown");
        },
        _ => panic!("expected the default handler"),
    }
    match m.dispatch_pipe_with_mime(&RsopMode::Identify, "application/json") {
        PipePlan::PrintMime(s) => assert_eq!(s, "application/json"),
        _ => panic!("identify prints the MIME type"),
    }
}

#[test]
fn test_dispatch_url_later_scheme_binding_wins() {
    let mut cfg = empty_config();
    cfg.handler_scheme.push((
        "http".to_owned(),
        SchemeHandler { command: "old %i".to_owned(), shell: false },
    ));
    cfg.handler_scheme.push((
        "http".to_owned(),
        SchemeHandler { command: "new %i".to_owned(), shell: false },
    ));
    let m = HandlerMapping::new(&cfg).unwrap();
    let url = UrlParts {
        scheme: "http".to_owned(),
        rest: "e/".to_owned(),
        full: "http://e/".to_owned(),
    };
    assert_eq!(m.dispatch_url(&url).unwrap().command, "new %i");
}

#[test]
fn test_dispatch_url_scheme_lookup() {
    let mut cfg = empty_config();
    cfg.handler_scheme.push((
        "http".to_owned(),
        SchemeHandler { command: "browse %i".to_owned(), shell: false },
    ));
    let m = HandlerMapping::new(&cfg).unwrap();
    let known = UrlParts {
        scheme: "http".to_owned(),
        rest: "example.com/".to_owned(),
        full: "http://example.com/".to_owned(),
    };
    assert_eq!(m.dispatch_url(&known).unwrap().command, "browse %i");
    let unknown = UrlParts {
        scheme: "gopher".to_owned(),
        rest: "example.com/".to_owned(),
        full: "gopher://example.com/".to_owned(),
    };
    assert!(matches!(m.dispatch_url(&unknown), Err(HandlerError::Other(_))));
}
