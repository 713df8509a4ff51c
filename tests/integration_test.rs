use clean_rs::{
    directory_deletions, dry_run_clean, get_dir_size, tally_attempts, Attempt, CleanResult,
    Deletion, FsNode,
};

fn file(dir: &str, name: &str, size: u64) -> FsNode {
    FsNode::File { path: format!("{}/{}", dir, name), name: name.to_string(), size }
}

/// file1.txt holds "Hello, World!", file2.txt 1024 bytes, subdir/file3.txt 2048 bytes.
fn sample_tree(root: &str) -> FsNode {
    let sub = format!("{}/subdir", root);
    FsNode::Dir {
        path: root.to_string(),
        name: "t".to_string(),
        entries: vec![
            file(root, "file1.txt", "Hello, World!".len() as u64),
            file(root, "file2.txt", 1024),
            FsNode::Dir {
                path: sub.clone(),
                name: "subdir".to_string(),
                entries: vec![file(&sub, "file3.txt", 2048)],
            },
        ],
    }
}

#[test]
fn test_get_dir_size() {
    let tree = Some(sample_tree("/scratch/t"));
    let size = get_dir_size(&tree);
    // 13 + 1024 + 2048 = 3085 bytes
    assert_eq!(size, 3085);
}

#[test]
fn test_clean_directory_dry_run() {
    let tree = Some(sample_tree("/scratch/t"));
    let result = dry_run_clean(&tree);

    assert!(result.files_deleted > 0);
    assert!(result.dirs_deleted > 0);
    assert_eq!(result.bytes_cleaned, 3085);

    // Nothing was removed: the same tree still weighs as much.
    assert_eq!(get_dir_size(&tree), 3085);
    assert!(!result.has_errors());
}

#[test]
fn test_clean_directory_real() {
    let tree = Some(sample_tree("/scratch/t"));
    let plan = directory_deletions(&tree);
    assert_eq!(plan.len(), 3);
    assert!(matches!(&plan[0], Deletion::RemoveFile(p) if p == "/scratch/t/file1.txt"));
    assert!(matches!(&plan[1], Deletion::RemoveFile(p) if p == "/scratch/t/file2.txt"));
    assert!(matches!(&plan[2], Deletion::RemoveDirAll(p) if p == "/scratch/t/subdir"));

    let attempts: Vec<Attempt> =
        plan.into_iter().map(|d| Attempt { deletion: d, error: None }).collect();
    let after = get_dir_size(&Some(FsNode::Dir {
        path: "/scratch/t".to_string(),
        name: "t".to_string(),
        entries: vec![],
    }));
    let result = tally_attempts(&attempts, 3085, after);

    assert!(result.files_deleted > 0);
    assert!(result.dirs_deleted >= 1);
    assert!(result.bytes_cleaned > 0);
    assert_eq!(result.files_deleted, 2);
    assert_eq!(result.dirs_deleted, 1);
    assert_eq!(result.bytes_cleaned, 3085);
}

#[test]
fn test_clean_result_methods() {
    let result = CleanResult {
        files_deleted: 10,
        dirs_deleted: 2,
        bytes_cleaned: 1024,
        errors: vec!["Error1".to_string()],
    };

    assert!(!result.is_empty());
    assert!(result.has_errors());

    let empty_result = CleanResult {
        files_deleted: 0,
        dirs_deleted: 0,
        bytes_cleaned: 0,
        errors: vec![],
    };

    assert!(empty_result.is_empty());
    assert!(!empty_result.has_errors());
}

#[test]
fn test_clean_result_display_status() {
    let result = CleanResult {
        files_deleted: 10,
        dirs_deleted: 2,
        bytes_cleaned: 1024000,
        errors: vec!["Error1".to_string(), "Error2".to_string()],
    };

    let status = result.display_status();
    assert!(status.contains("Files deleted: 10"));
    assert!(status.contains("Directories deleted: 2"));
    assert!(status.contains("0.98")); // Should be approximately 0.98 MB
    assert!(status.contains("Errors encountered: 2"));
}

#[test]
fn display_status_exact_text() {
    let result = CleanResult {
        files_deleted: 10,
        dirs_deleted: 2,
        bytes_cleaned: 1024000,
        errors: vec![],
    };
    assert_eq!(
        result.display_status(),
        "Files deleted: 10\nDirectories deleted: 2\nSpace freed: 0.98 MB"
    );
}

#[test]
fn display_status_matches_float_formatting() {
    for bytes in [0u64, 1, 5242, 5243, 131072, 393216, 655360, 1048576, 123456789, u64::MAX] {
        let r = CleanResult { files_deleted: 0, dirs_deleted: 0, bytes_cleaned: bytes, errors: vec![] };
        let expected = format!("Space freed: {:.2} MB", bytes as f64 / (1024.0 * 1024.0));
        assert!(r.display_status().ends_with(&expected), "{} bytes", bytes);
    }
}

#[test]
fn failed_attempts_leave_messages() {
    let attempts = vec![
        Attempt { deletion: Deletion::RemoveFile("/x/a".to_string()), error: None },
        Attempt {
            deletion: Deletion::RemoveFile("/x/b".to_string()),
            error: Some("Permission denied".to_string()),
        },
        Attempt {
            deletion: Deletion::RemoveDirAll("/x/d".to_string()),
            error: Some("busy".to_string()),
        },
    ];
    let r = tally_attempts(&attempts, 100, 120);
    assert_eq!(r.files_deleted, 1);
    assert_eq!(r.dirs_deleted, 0);
    assert_eq!(r.bytes_cleaned, 0);
    assert_eq!(
        r.errors,
        vec![
            "Failed to delete file /x/b: Permission denied".to_string(),
            "Failed to delete directory /x/d: busy".to_string(),
        ]
    );
}
