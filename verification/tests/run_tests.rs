use std::io::Write;

use rsop::config::FileFilter;
use rsop::config::FileHandler;
use rsop::config::SchemeHandler;
use rsop::dispatch::route_path;
use rsop::dispatch::PathRoute;
use rsop::dispatch::PipePlan;
use rsop::mapping::FileProcessor;
use rsop::mapping::HandlerMapping;
use rsop::mode::RsopMode;
use rsop::run::StreamSpec;

#[test]
fn test_run_path_handler_waiting() {
    let h = FileHandler {
        command: "less -R %i".to_owned(),
        wait: true,
        shell: false,
        no_pipe: false,
        stdin_arg: None,
    };
    let inv = HandlerMapping::run_path_handler(&h, "/tmp/a.txt", None, (80, 24)).unwrap();
    assert_eq!(inv.args, vec!["less".to_owned(), "-R".to_owned(), "/tmp/a.txt".to_owned()]);
    assert_eq!(inv.stdin_spec, StreamSpec::Null);
    assert_eq!(inv.stdout_spec, StreamSpec::Inherit);
    assert_eq!(inv.stderr_spec, StreamSpec::Inherit);
    assert!(!inv.mark_stdin_copy);
    assert!(inv.wait);
}

#[test]
fn test_run_path_handler_detached_discards_output() {
    let h = FileHandler {
        command: "viewer %i".to_owned(),
        wait: false,
        shell: false,
        no_pipe: false,
        stdin_arg: None,
    };
    let inv = HandlerMapping::run_path_handler(&h, "/tmp/a.png", None, (80, 24)).unwrap();
    assert_eq!(inv.stdout_spec, StreamSpec::Null);
    assert_eq!(inv.stderr_spec, StreamSpec::Null);
    assert!(!inv.wait);
}

#[test]
fn test_run_path_handler_shell_and_size() {
    let h = FileHandler {
        command: "head -n %l %i | cut -c -%c".to_owned(),
        wait: true,
        shell: true,
        no_pipe: false,
        stdin_arg: None,
    };
    let inv = HandlerMapping::run_path_handler(&h, "f.log", None, (120, 40)).unwrap();
    assert_eq!(
        inv.args,
        vec!["sh".to_owned(), "-c".to_owned(), "head -n 40 f.log | cut -c -120".to_owned()]
    );
}

#[test]
fn test_run_path_filter_pipes_output() {
    let f = FileFilter {
        command: "zcat %i".to_owned(),
        shell: false,
        no_pipe: false,
        stdin_arg: None,
    };
    let inv = HandlerMapping::run_path_filter(&f, "a.gz", None, (80, 24)).unwrap();
    assert_eq!(inv.args, vec!["zcat".to_owned(), "a.gz".to_owned()]);
    assert_eq!(inv.stdin_spec, StreamSpec::Null);
    assert_eq!(inv.stdout_spec, StreamSpec::Piped);
    assert!(!inv.wait);
}

#[test]
fn test_run_pipe_handler_stdin_arg_and_wait() {
    let h = FileHandler {
        command: "mpv %i".to_owned(),
        wait: false,
        shell: false,
        no_pipe: false,
        stdin_arg: Some("-".to_owned()),
    };
    let inv = HandlerMapping::run_pipe_handler(&h, None, None, (80, 24)).unwrap();
    assert_eq!(inv.args, vec!["mpv".to_owned(), "-".to_owned()]);
    assert_eq!(inv.stdin_spec, StreamSpec::Piped);
    assert!(!inv.mark_stdin_copy);
    assert!(!inv.wait);

    // With a temporary file the handler reads the file instead, the
    // environment marker is set, and the caller waits so the file
    // outlives the child.
    let no_pipe = FileHandler {
        command: "scan %i".to_owned(),
        wait: false,
        shell: false,
        no_pipe: true,
        stdin_arg: None,
    };
    let inv2 = HandlerMapping::run_pipe_handler(&no_pipe, Some("/tmp/copy123"), None, (80, 24))
        .unwrap();
    assert_eq!(inv2.args, vec!["scan".to_owned(), "/tmp/copy123".to_owned()]);
    assert_eq!(inv2.stdin_spec, StreamSpec::Null);
    assert!(inv2.mark_stdin_copy);
    assert!(inv2.wait);
}

#[test]
fn test_pipe_filter_with_no_pipe_uses_temp_file() {
    // A filter that cannot read a pipe: the stream is materialized into
    // a named temporary file, the filter command is invoked against
    // that file's path, and the file is gone once the handle is
    // dropped.
    let filter = FileFilter {
        command: "wc -c %i".to_owned(),
        shell: false,
        no_pipe: true,
        stdin_arg: None,
    };
    let processor = FileProcessor::Filter(filter.clone());
    assert!(processor.no_pipe());

    let mut tmp = tempfile::NamedTempFile::new().unwrap();
    tmp.as_file_mut().write_all(b"piped bytes").unwrap();
    let tmp_path = tmp.path().to_str().unwrap().to_owned();

    let inv = HandlerMapping::run_pipe_filter(&filter, None, Some(&tmp_path), (80, 24)).unwrap();
    assert_eq!(inv.args, vec!["wc".to_owned(), "-c".to_owned(), tmp_path.clone()]);
    assert_eq!(inv.stdin_spec, StreamSpec::Null);
    assert_eq!(inv.stdout_spec, StreamSpec::Piped);
    assert!(inv.mark_stdin_copy);
    assert!(!inv.wait);

    let kept_path = tmp.path().to_path_buf();
    assert!(kept_path.exists());
    drop(tmp);
    assert!(!kept_path.exists());
}

#[test]
fn test_run_pipe_handler_empty_stdin_arg() {
    // An empty stdin argument substitutes an empty path, and the
    // trailing space is trimmed away.
    let h = FileHandler {
        command: "play %i".to_owned(),
        wait: true,
        shell: false,
        no_pipe: false,
        stdin_arg: Some(String::new()),
    };
    let inv = HandlerMapping::run_pipe_handler(&h, None, None, (80, 24)).unwrap();
    assert_eq!(inv.args, vec!["play".to_owned()]);
}

#[test]
fn test_run_url_fire_and_forget() {
    let h = SchemeHandler { command: "browser %i".to_owned(), shell: false };
    let inv = HandlerMapping::run_url(&h, "https://example.com/", (80, 24)).unwrap();
    assert_eq!(inv.args, vec!["browser".to_owned(), "https://example.com/".to_owned()]);
    assert_eq!(inv.stdin_spec, StreamSpec::Null);
    assert_eq!(inv.stdout_spec, StreamSpec::Null);
    assert_eq!(inv.stderr_spec, StreamSpec::Null);
    assert!(!inv.wait);
}

#[test]
fn test_route_path_modes() {
    // Outside XdgOpen mode a URL-looking argument stays a plain path.
    match route_path(&RsopMode::Open, "https://example.com/x") {
        PathRoute::Local { path } => assert_eq!(path, "https://example.com/x"),
        PathRoute::Remote { .. } => panic!("only XdgOpen parses URLs"),
    }
    // In XdgOpen mode a URL goes to the scheme table, scheme lower-cased.
    match route_path(&RsopMode::XdgOpen, "HTTPS://Example.COM/x") {
        PathRoute::Remote { url } => assert_eq!(url.scheme, "https"),
        PathRoute::Local { .. } => panic!("expected a URL route"),
    }
    // A file URL is rewritten to its local path.
    match route_path(&RsopMode::XdgOpen, "file:///tmp/some%20file") {
        PathRoute::Local { path } => assert_eq!(path, "/tmp/some%20file"),
        PathRoute::Remote { .. } => panic!("file URLs dispatch as paths"),
    }
    // A plain path is no URL.
    match route_path(&RsopMode::XdgOpen, "/tmp/plain.txt") {
        PathRoute::Local { path } => assert_eq!(path, "/tmp/plain.txt"),
        PathRoute::Remote { .. } => panic!("expected a path route"),
    }
}

#[test]
fn test_dispatch_pipe_plan_identify_sniffs() {
    let cfg = rsop::config::Config {
        filetype: vec![],
        handler_preview: vec![],
        default_handler_preview: FileHandler {
            command: "file %i".to_owned(),
            wait: true,
            shell: false,
            no_pipe: false,
            stdin_arg: None,
        },
        handler_open: vec![],
        default_handler_open: FileHandler {
            command: "cat -A %i".to_owned(),
            wait: true,
            shell: false,
            no_pipe: false,
            stdin_arg: None,
        },
        handler_edit: vec![],
        filter: vec![],
        handler_scheme: vec![],
    };
    let m = HandlerMapping::new(&cfg).unwrap();
    match m.dispatch_pipe_plan(&RsopMode::Identify, b"plain text header\n") {
        PipePlan::PrintMime(mime) => assert!(!mime.is_empty()),
        _ => panic!("identify prints the sniffed MIME type"),
    }
}
