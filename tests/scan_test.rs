use clean_rs::{
    aggregate, aggregate_temp_files, build_catalog, clean_recycle_bin, contains_infix,
    decimal_text, is_temp_file_name, join_path, temp_file_deletions, CleanError, CleanupItem,
    CleanupResult, CleanupType, Deletion, FsNode, HostDirs,
};

fn file(dir: &str, name: &str, size: u64) -> FsNode {
    FsNode::File { path: format!("{}/{}", dir, name), name: name.to_string(), size }
}

fn dir(path: &str, entries: Vec<FsNode>) -> FsNode {
    let name = path.rsplit('/').next().unwrap_or("").to_string();
    FsNode::Dir { path: path.to_string(), name, entries }
}

fn item(cleanup_type: CleanupType) -> CleanupItem {
    CleanupItem {
        id: "t".to_string(),
        name: "T".to_string(),
        description: "d".to_string(),
        cleanup_type,
        enabled: true,
    }
}

#[test]
fn aggregate_counts_nested_files_and_directories() {
    let tree = dir(
        "/r",
        vec![
            file("/r", "a", 5),
            dir("/r/x", vec![dir("/r/x/y", vec![file("/r/x/y", "deep", 7)]), file("/r/x", "b", 11)]),
            dir("/r/empty", vec![]),
        ],
    );
    let r = aggregate(&Some(tree));
    assert_eq!(r.size_bytes, 23);
    assert_eq!(r.files, 3);
    assert_eq!(r.directories, 3);
    assert_eq!(r.entries, 0);
    assert!(r.has_data);
    assert_eq!(r.total_items(), 6);
}

#[test]
fn aggregate_missing_path_is_empty() {
    let r = aggregate(&None);
    assert_eq!((r.size_bytes, r.files, r.directories), (0, 0, 0));
    assert!(!r.has_data);
    assert_eq!(r, CleanupResult::new());
    assert_eq!(r, CleanupResult::default());
}

#[test]
fn aggregate_of_a_file_is_its_size() {
    let r = aggregate(&Some(file("/r", "f", 42)));
    assert_eq!((r.size_bytes, r.files, r.directories), (42, 1, 0));
    assert!(r.has_data);
}

#[test]
fn empty_subdirectory_counts_as_data() {
    let r = aggregate(&Some(dir("/r", vec![dir("/r/e", vec![])])));
    assert_eq!((r.size_bytes, r.files, r.directories), (0, 0, 1));
    assert!(r.has_data);
}

#[test]
fn sizes_saturate_at_the_largest_count() {
    let r = aggregate(&Some(dir("/r", vec![file("/r", "a", u64::MAX), file("/r", "b", 9)])));
    assert_eq!(r.size_bytes, u64::MAX);
    assert_eq!(r.files, 2);
}

#[test]
fn scan_twice_gives_identical_results() {
    let roots = vec![Some(dir("/r", vec![file("/r", "a.tmp", 3), dir("/r/s", vec![file("/r/s", "b", 4)])]))];
    for t in [CleanupType::Directory("/r".to_string()), CleanupType::TempFiles("/r".to_string())] {
        let it = item(t);
        assert_eq!(it.scan(&roots), it.scan(&roots));
    }
}

#[test]
fn two_targets_scenario_totals() {
    let a = dir("/a", vec![file("/a", "file1.txt", 13), file("/a", "file2.txt", 1024)]);
    let b = dir("/b", vec![dir("/b/sub", vec![file("/b/sub", "file3.txt", 2048)])]);
    let ia = item(CleanupType::Directory("/a".to_string()));
    let ib = item(CleanupType::Directory("/b".to_string()));
    let ra = ia.scan(&vec![Some(a)]);
    let rb = ib.scan(&vec![Some(b)]);
    assert_eq!(ra.size_bytes + rb.size_bytes, 3085);
    assert_eq!(ra.files + rb.files, 3);
}

#[test]
fn multiple_directories_sum_and_or_data() {
    let it = item(CleanupType::Directories(vec!["/a".to_string(), "/b".to_string(), "/c".to_string()]));
    let roots = vec![Some(dir("/a", vec![file("/a", "x", 10)])), None, Some(dir("/c", vec![file("/c", "y", 20)]))];
    let r = it.scan(&roots);
    assert_eq!((r.size_bytes, r.files, r.directories), (30, 2, 0));
    assert!(r.has_data);
    let none = it.scan(&vec![None, None, None]);
    assert!(!none.has_data);
    assert_eq!(it.cleanup_type.root_paths(), vec!["/a".to_string(), "/b".to_string(), "/c".to_string()]);
}

#[test]
fn temp_pattern_scenario() {
    let root = dir(
        "/tmp",
        vec![
            file("/tmp", "a.tmp", 1),
            file("/tmp", "notes.txt", 10),
            file("/tmp", "~backup", 100),
            file("/tmp", "cache.db", 1000),
        ],
    );
    let it = item(CleanupType::TempFiles("/tmp".to_string()));
    let r = it.scan(&vec![Some(root)]);
    assert_eq!(r.files, 3);
    assert_eq!(r.size_bytes, 1101);
    assert_eq!(r.directories, 0);
}

#[test]
fn temp_scan_walks_every_subdirectory() {
    let root = dir(
        "/tmp",
        vec![dir("/tmp/plain", vec![file("/tmp/plain", "x.temp", 8), file("/tmp/plain", "keep.rs", 9)])],
    );
    let root = Some(root);
    let r = aggregate_temp_files(&root);
    assert_eq!((r.files, r.size_bytes, r.directories), (1, 8, 0));
    let plan = temp_file_deletions(&root);
    assert_eq!(plan.len(), 1);
    assert!(matches!(&plan[0], Deletion::RemoveFile(p) if p == "/tmp/plain/x.temp"));
}

#[test]
fn temp_scan_of_a_file_root_or_missing_root_is_empty() {
    assert_eq!(aggregate_temp_files(&Some(file("/", "a.tmp", 5))), CleanupResult::new());
    assert_eq!(aggregate_temp_files(&None), CleanupResult::new());
}

#[test]
fn transient_names() {
    for n in ["a.tmp", "tmpfile", "x.temp", "mytemp", "cache.db", "webcache", "~backup", "backup~", "~"] {
        assert!(is_temp_file_name(&n.to_string()), "{}", n);
    }
    for n in ["notes.txt", "", "TEMP", "Cache", "a~b", "tm", "cach"] {
        assert!(!is_temp_file_name(&n.to_string()), "{}", n);
    }
}

#[test]
fn infix_search() {
    let hay: Vec<char> = "abcabd".chars().collect();
    assert!(contains_infix(&hay, &vec!['a', 'b', 'd']));
    assert!(!contains_infix(&hay, &vec!['a', 'b', 'e']));
    assert!(contains_infix(&hay, &vec![]));
    assert!(!contains_infix(&vec!['a'], &vec!['a', 'a']));
}

#[test]
fn clean_reports_the_scan_and_plans_deletions() {
    let tree = dir("/r", vec![file("/r", "a", 1), dir("/r/s", vec![file("/r/s", "b", 2)])]);
    let it = item(CleanupType::Directory("/r".to_string()));
    let roots = vec![Some(tree)];
    let real = it.clean(&roots, false);
    assert_eq!(real.result, it.scan(&roots));
    assert_eq!(real.deletions.len(), 2);
    assert!(matches!(&real.deletions[0], Deletion::RemoveFile(p) if p == "/r/a"));
    assert!(matches!(&real.deletions[1], Deletion::RemoveDirAll(p) if p == "/r/s"));
    let dry = it.clean(&roots, true);
    assert_eq!(dry.result, real.result);
    assert!(dry.deletions.is_empty());
}

#[test]
fn clean_of_a_file_root_removes_it() {
    let it = item(CleanupType::Directory("/r/f".to_string()));
    let plan = it.clean(&vec![Some(file("/r", "f", 3))], false);
    assert_eq!(plan.result.files, 1);
    assert!(matches!(&plan.deletions[0], Deletion::RemoveFile(p) if p == "/r/f"));
    let missing = it.clean(&vec![None], false);
    assert!(missing.deletions.is_empty());
    assert!(!missing.result.has_data);
}

#[test]
fn joining_paths() {
    assert_eq!(join_path(&"/home/u/.cache".to_string(), "Code", false), "/home/u/.cache/Code");
    assert_eq!(join_path(&"/home/u/".to_string(), "Code", false), "/home/u/Code");
    assert_eq!(join_path(&"".to_string(), "Code", false), "Code");
    assert_eq!(join_path(&"C:\\Users\\u".to_string(), "AppData\\npm", true), "C:\\Users\\u\\AppData\\npm");
}

#[test]
fn decimal_notation() {
    assert_eq!(decimal_text(0), "0");
    assert_eq!(decimal_text(7), "7");
    assert_eq!(decimal_text(1024000), "1024000");
    assert_eq!(decimal_text(u64::MAX as u128), u64::MAX.to_string());
}

#[test]
fn catalog_on_a_unix_host() {
    let host = HostDirs {
        temp_dir: "/tmp".to_string(),
        cache_dir: Some("/home/u/.cache".to_string()),
        data_local_dir: Some("/home/u/.local/share".to_string()),
        home_dir: Some("/home/u".to_string()),
        windows: false,
    };
    let items = build_catalog(&host);
    let ids: Vec<&str> = items.iter().map(|i| i.id.as_str()).collect();
    assert_eq!(ids, vec!["temp_files", "vscode_cache", "log_files"]);
    assert!(matches!(&items[0].cleanup_type, CleanupType::Directory(p) if p == "/tmp"));
    assert_eq!(items[0].description, "系统临时文件目录: /tmp");
    assert!(items[0].enabled);
    assert!(matches!(&items[1].cleanup_type, CleanupType::Directory(p) if p == "/home/u/.cache/Code"));
    assert!(!items[1].enabled);
    assert!(matches!(&items[2].cleanup_type, CleanupType::TempFiles(p) if p == "/tmp"));
    assert!(items[2].enabled);
}

#[test]
fn catalog_on_a_windows_host() {
    let host = HostDirs {
        temp_dir: "C:\\Temp".to_string(),
        cache_dir: Some("C:\\Users\\u\\AppData\\Local".to_string()),
        data_local_dir: Some("C:\\Users\\u\\AppData\\Local".to_string()),
        home_dir: Some("C:\\Users\\u".to_string()),
        windows: true,
    };
    let items = build_catalog(&host);
    let ids: Vec<&str> = items.iter().map(|i| i.id.as_str()).collect();
    assert_eq!(
        ids,
        vec![
            "temp_files", "prefetch", "chrome_cache", "vscode_cache", "cargo_cache", "npm_cache",
            "log_files", "thumbnail_cache", "recent_docs",
        ]
    );
    assert!(matches!(&items[4].cleanup_type, CleanupType::Directory(p)
        if p == "C:\\Users\\u\\.cargo\\registry\\cache"));
}

#[test]
fn catalog_without_user_directories() {
    let host = HostDirs {
        temp_dir: "/tmp".to_string(),
        cache_dir: None,
        data_local_dir: None,
        home_dir: None,
        windows: true,
    };
    let ids: Vec<String> = build_catalog(&host).into_iter().map(|i| i.id).collect();
    assert_eq!(ids, vec!["temp_files", "prefetch", "log_files"]);
}

#[test]
fn recycle_bin_is_not_supported_here() {
    for dry in [true, false] {
        match clean_recycle_bin(dry) {
            Err(e @ CleanError::NotSupported(_)) => {
                assert!(e.is_not_supported());
                if let CleanError::NotSupported(m) = e {
                    assert_eq!(m, "Recycle Bin is not available on Unix/Linux systems");
                }
            }
            other => panic!("unexpected {:?}", other),
        }
    }
    assert!(!CleanError::Io("x".to_string()).is_not_supported());
}
