use make_sysroot::{
    build_copier, check_destination, preview_mark, relative_target, rooted_path, ConfigError,
    DestinationError, PreviewMark, RelativizeError,
};
use make_sysroot::relative::finish_target;

/// Resolves a relative path against a directory, folding `..` and `.`.
fn resolve(dir: &str, rel: &str) -> String {
    let mut parts: Vec<&str> = dir.split('/').filter(|c| !c.is_empty()).collect();
    for c in rel.split('/') {
        match c {
            "" | "." => {}
            ".." => {
                parts.pop();
            }
            other => parts.push(other),
        }
    }
    format!("/{}", parts.join("/"))
}

#[test]
fn refuses_filesystem_root() {
    assert_eq!(check_destination("/", false), Err(DestinationError::FilesystemRoot));
    assert_eq!(check_destination("/", true), Ok(()));
    assert_eq!(check_destination("/srv/sysroot", false), Ok(()));
    assert_eq!(check_destination("", false), Ok(()));
}

#[test]
fn relativizes_library_link() {
    let r = relative_target("/sysroot", "/sysroot/usr/lib/libfoo.so", "/lib/libfoo.so.1");
    assert_eq!(r, Ok(Some("../../lib/libfoo.so.1".to_string())));
}

#[test]
fn relative_targets_stay() {
    assert_eq!(relative_target("/sysroot", "/sysroot/usr/lib/a", "libfoo.so.1"), Ok(None));
    assert_eq!(relative_target("/sysroot", "/sysroot/usr/lib/a", "../b"), Ok(None));
    assert_eq!(relative_target("/sysroot", "/sysroot/usr/lib/a", ""), Ok(None));
}

#[test]
fn relativized_target_resolves_to_rooted_target() {
    let root = "/sysroot";
    let cases = [
        ("/sysroot/a/b/c/link", "/x/y/file"),
        ("/sysroot/link", "/etc/alternatives/cc"),
        ("/sysroot/usr/bin/cc", "/usr/bin/gcc-12"),
        ("/sysroot/usr/lib/x86_64/libz.so", "/usr/lib/x86_64/libz.so.1.3"),
    ];
    for (link, target) in cases {
        let rel = relative_target(root, link, target).unwrap().unwrap();
        assert!(!rel.starts_with('/'));
        let dir = &link[..link.rfind('/').unwrap()];
        assert_eq!(resolve(dir, &rel), format!("{}{}", root, target));
    }
}

#[test]
fn same_directory_link_keeps_name() {
    let r = relative_target("/sysroot", "/sysroot/usr/lib/libfoo.so", "/usr/lib/libfoo.so.1");
    assert_eq!(r, Ok(Some("libfoo.so.1".to_string())));
}

#[test]
fn missing_relative_path_is_an_error() {
    assert_eq!(finish_target("/sysroot", "/lib/x", None), Err(RelativizeError::NoRelativePath));
    assert_eq!(finish_target("/sysroot", "/lib/x", Some("../..".to_string())), Ok(Some("../../x".to_string())));
    assert_eq!(finish_target("/sysroot", "lib/x", None), Ok(None));
}

#[test]
fn rooting_config_paths() {
    assert_eq!(rooted_path("/dst", "/usr/lib"), Some("/dst/usr/lib".to_string()));
    assert_eq!(rooted_path("/dst/", "//usr"), Some("/dst/usr".to_string()));
    assert_eq!(rooted_path("/dst", "usr/lib"), None);
}

#[test]
fn copier_from_config() {
    let inc = vec!["/usr".to_string(), "/lib".to_string()];
    let exc = vec!["/usr/share".to_string()];
    let b = build_copier("/src", "/dst", &inc, &exc).unwrap();
    assert!(b.passes("/src/usr/lib/libc.so"));
    assert!(!b.passes("/src/usr/share/doc"));
    assert!(!b.passes("/src/etc/hosts"));
    assert_eq!(b.source, "/src");
    assert_eq!(b.destination, "/dst");
}

#[test]
fn config_paths_must_be_absolute() {
    let good = vec!["/usr".to_string()];
    let bad = vec!["usr".to_string()];
    assert_eq!(build_copier("/src", "/dst", &bad, &good).unwrap_err(), ConfigError::IncludeNotAbsolute);
    assert_eq!(build_copier("/src", "/dst", &good, &bad).unwrap_err(), ConfigError::ExcludeNotAbsolute);
    assert_eq!(build_copier("/src", "/dst", &bad, &bad).unwrap_err(), ConfigError::IncludeNotAbsolute);
}

#[test]
fn preview_marks() {
    let inc = vec!["/usr".to_string()];
    let exc = vec!["/usr/share".to_string(), "/usr".to_string()];
    assert_eq!(preview_mark("/usr", &inc, &exc), PreviewMark::Included);
    assert_eq!(preview_mark("/usr/share", &inc, &exc), PreviewMark::Excluded);
    assert_eq!(preview_mark("/opt", &inc, &exc), PreviewMark::Unmarked);
}
