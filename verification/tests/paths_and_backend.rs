use cuda_builder::{backend_library_dirs, dylib_path_envvar, library_search_path, loader_error, resolve, sysroot_lib_dirs, sysroot_from_output, CudaBuilder, CudaBuilderError, HostOs, HostPath};

fn path(s: &str) -> HostPath {
    HostPath::from_str(s)
}

fn text(p: &HostPath) -> String {
    String::from_utf8(p.bytes.clone()).unwrap()
}

#[test]
fn file_names_and_parents_follow_std_components() {
    let cases: [(&str, Option<&str>, Option<&str>); 12] = [
        ("/usr/bin/", Some("bin"), Some("/usr")),
        ("tmp/foo.txt", Some("foo.txt"), Some("tmp")),
        ("foo.txt/.", Some("foo.txt"), Some("")),
        ("foo.txt/.//", Some("foo.txt"), Some("")),
        ("foo.txt/..", None, Some("foo.txt")),
        ("/", None, None),
        ("", None, None),
        (".", None, Some("")),
        ("./a", Some("a"), Some(".")),
        ("/a", Some("a"), Some("/")),
        ("a//b", Some("b"), Some("a")),
        ("a/./b/.", Some("b"), Some("a")),
    ];
    for (p, name, parent) in cases {
        let hp = path(p);
        assert_eq!(hp.file_name().map(|n| String::from_utf8(n).unwrap()).as_deref(), name, "{p}");
        assert_eq!(hp.parent().map(|q| text(&q)).as_deref(), parent, "{p}");
    }
}

#[test]
fn extensions_and_joins() {
    assert_eq!(path("a/b.tar.gz").extension(), Some(b"gz".to_vec()));
    assert_eq!(path(".bashrc").extension(), None);
    assert_eq!(path("..ptx").extension(), Some(b"ptx".to_vec()));
    assert_eq!(path("a.").extension(), Some(Vec::new()));
    assert_eq!(text(&path("a").join_str("b")), "a/b");
    assert_eq!(text(&path("a/").join_str("b")), "a/b");
    assert_eq!(text(&path("").join_str("b")), "b");
    assert_eq!(text(&path("a").join_str("/b")), "/b");
    assert_eq!(path("\u{e9}").to_str().unwrap(), "\u{e9}");
    assert_eq!(HostPath::from_bytes(vec![0xff]).to_str(), None);
    assert_eq!(HostPath::from_bytes(vec![b'a', 0xff]).display(), "a\u{fffd}");
}

#[test]
fn loader_variable_per_platform() {
    assert_eq!(dylib_path_envvar(HostOs::Windows), "PATH");
    assert_eq!(dylib_path_envvar(HostOs::MacOs), "DYLD_FALLBACK_LIBRARY_PATH");
    assert_eq!(dylib_path_envvar(HostOs::Other), "LD_LIBRARY_PATH");
}

#[test]
fn backend_library_dirs_keep_first_occurrences() {
    let sysroot = sysroot_lib_dirs(&path("/r"), &vec![path("t1"), path("t2")]);
    let dirs = backend_library_dirs(&path("/x/deps/libb.so"), &sysroot);
    let texts: Vec<_> = dirs.iter().map(text).collect();
    assert_eq!(texts, ["/x/deps", "/x", "/r/lib", "/r/lib/rustlib/t1/lib", "/r/lib/rustlib/t2/lib"]);
    let dirs = backend_library_dirs(&path("/r/lib/libb.so"), &sysroot);
    let texts: Vec<_> = dirs.iter().map(text).collect();
    assert_eq!(
        texts,
        ["/r/lib", "/r", "/r/lib/deps", "/r/lib/rustlib/t1/lib", "/r/lib/rustlib/t2/lib"]
    );
    assert!(backend_library_dirs(&path(""), &Vec::new()).is_empty());
}

#[test]
fn search_path_only_when_a_directory_exists() {
    let cands = vec![path("/a"), path("/b"), path("/c")];
    assert_eq!(library_search_path(&cands, &vec![false, false, false], &vec![path("/old")]), None);
    let joined = library_search_path(&cands, &vec![false, true, true], &vec![path("/old")]).unwrap();
    assert_eq!(joined, [path("/b"), path("/c"), path("/old")]);
    assert!(matches!(loader_error("PATH", "x"), CudaBuilderError::Backend(m) if m == "cannot set PATH: x"));
}

#[test]
fn backend_resolution_outcomes() {
    assert_eq!(resolve(&path("b.so"), Ok(path("/abs/b.so")), true), Ok(path("/abs/b.so")));
    assert_eq!(resolve(&path("b.so"), Err("nope".into()), true), Err("cannot use b.so: nope".to_string()));
    let builder = CudaBuilder::new(path("k"), path("dir"));
    assert!(matches!(
        builder.backend_path(Ok(path("/abs/dir")), false),
        Err(CudaBuilderError::Backend(m)) if m == "dir is not a backend file"
    ));
    assert_eq!(builder.backend_path(Ok(path("/abs/b")), true).unwrap(), path("/abs/b"));
}

#[test]
fn uses_only_the_supplied_file() {
    let exe = path("/work/target/debug/deps/exe");
    assert_eq!(
        resolve(&exe, Ok(path("/work/target/debug/deps/exe")), true).unwrap(),
        path("/work/target/debug/deps/exe")
    );
    let missing = exe.join_str("missing");
    assert!(resolve(&missing, Err("No such file or directory (os error 2)".to_string()), false).is_err());
    let parent = exe.parent().unwrap();
    assert!(resolve(&parent, Ok(parent.clone()), false).is_err());
}

#[test]
fn sysroot_output_is_trimmed_and_lossily_decoded() {
    assert_eq!(sysroot_from_output(b"/home/u/.rustup/toolchains/nightly\n"), path("/home/u/.rustup/toolchains/nightly"));
    assert_eq!(sysroot_from_output(b"  \t/opt/rust \r\n"), path("/opt/rust"));
    assert_eq!(sysroot_from_output(b"/bad\xff\n"), path("/bad\u{fffd}"));
    assert_eq!(sysroot_from_output(b" \n"), path(""));
}

#[test]
fn library_dirs_compare_paths_by_components() {
    let sysroot = vec![path("/r/lib/"), path("/r/./lib"), path("//r//lib2")];
    let dirs = backend_library_dirs(&path("/r/lib/libb.so"), &sysroot);
    let texts: Vec<_> = dirs.iter().map(text).collect();
    assert_eq!(texts, ["/r/lib", "/r", "/r/lib/deps", "//r//lib2"]);
    assert!(path("a/b/").same_path(&path("a//b")));
    assert!(path("./a").same_path(&path("./a/.")));
    assert!(!path("./a").same_path(&path("a")));
    assert!(!path("/a").same_path(&path("a")));
    assert_eq!(path("/a//./b/").components(), vec![b"/".to_vec(), b"a".to_vec(), b"b".to_vec()]);
}
