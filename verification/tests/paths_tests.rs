use rsop::mapping::HandlerMapping;

#[test]
fn test_path_extensions() {
    assert_eq!(HandlerMapping::path_extensions("/tmp/"), Vec::<String>::new());
    assert_eq!(HandlerMapping::path_extensions("/tmp/foo"), Vec::<String>::new());
    assert_eq!(
        HandlerMapping::path_extensions("/tmp/foo.bar"),
        vec!["bar".to_owned()]
    );
    assert_eq!(
        HandlerMapping::path_extensions("/tmp/foo.bar.baz"),
        vec!["bar.baz".to_owned(), "baz".to_owned()]
    );
    assert_eq!(
        HandlerMapping::path_extensions("/tmp/foo.BaR.bAz"),
        vec!["bar.baz".to_owned(), "baz".to_owned()]
    );
    assert_eq!(
        HandlerMapping::path_extensions("/tmp/foo.bar.baz.blah"),
        vec!["baz.blah".to_owned(), "blah".to_owned()]
    );
}

#[test]
fn test_path_extensions_hidden_files() {
    // A leading dot alone opens no extension.
    assert_eq!(HandlerMapping::path_extensions("/home/u/.bashrc"), Vec::<String>::new());
    // With a second dot the name has an extension, and the double
    // extension starts after the leading dot.
    assert_eq!(
        HandlerMapping::path_extensions("/home/u/.foo.bar"),
        vec!["foo.bar".to_owned(), "bar".to_owned()]
    );
}

#[test]
fn test_path_extensions_relative_and_dotted() {
    assert_eq!(HandlerMapping::path_extensions("foo.tar.gz"), vec![
        "tar.gz".to_owned(),
        "gz".to_owned()
    ]);
    assert_eq!(HandlerMapping::path_extensions(".."), Vec::<String>::new());
    assert_eq!(HandlerMapping::path_extensions("dir/.."), Vec::<String>::new());
    assert_eq!(HandlerMapping::path_extensions("./a.txt"), vec!["txt".to_owned()]);
}

#[test]
fn test_split_mime() {
    assert_eq!(
        HandlerMapping::split_mime("application/vnd.debian.binary-package"),
        vec![
            "application/vnd.debian.binary-package",
            "application/vnd.debian",
            "application/vnd",
            "application"
        ]
    );

    assert_eq!(
        HandlerMapping::split_mime("application/pkix-cert+pem"),
        vec![
            "application/pkix-cert+pem",
            "application/pkix-cert",
            "application"
        ]
    );
}

#[test]
fn test_split_mime_plain() {
    assert_eq!(
        HandlerMapping::split_mime("text/plain"),
        vec!["text/plain", "text"]
    );
    assert_eq!(HandlerMapping::split_mime("inode"), vec!["inode"]);
}
