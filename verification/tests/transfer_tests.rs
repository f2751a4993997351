use s3cli::enumerate::{total_bytes, upload_targets, relative_suffix, EnumeratedFile};
use s3cli::keymap::map_key;
use s3cli::location::Location;
use s3cli::plan::{plan_copy, plan_remove, Plan, PlanError};
use s3cli::progress::{ProgressCounter, ProgressReport};

fn file(local_path: &str, relative_key_suffix: &str, size_bytes: u64) -> EnumeratedFile {
    EnumeratedFile {
        local_path: local_path.into(),
        relative_key_suffix: relative_key_suffix.into(),
        size_bytes,
    }
}

#[test]
fn map_key_joins_with_single_slash() {
    assert_eq!(map_key("prefix", "a.txt"), "prefix/a.txt");
    assert_eq!(map_key("", "a.txt"), "a.txt");
    assert_eq!(map_key("p/q", "sub/b.txt"), "p/q/sub/b.txt");
}

#[test]
fn map_key_composes_associatively() {
    let via_base = map_key(&map_key("p", "a/b"), "c.txt");
    let direct = map_key("p", "a/b/c.txt");
    assert_eq!(via_base, direct);
    let via_empty_base = map_key(&map_key("", "a/b"), "c.txt");
    assert_eq!(via_empty_base, map_key("", "a/b/c.txt"));
}

#[test]
fn total_bytes_sums_known_sizes() {
    let files = vec![
        file("./d/a.txt", "a.txt", 10),
        file("./d/sub/b.txt", "sub/b.txt", 20),
        file("./d/sub/c.txt", "sub/c.txt", 5),
    ];
    assert_eq!(files.len(), 3);
    assert_eq!(total_bytes(&files), 35);
    assert_eq!(total_bytes(&Vec::new()), 0);
}

#[test]
fn total_bytes_saturates() {
    let files = vec![file("a", "a", u64::MAX), file("b", "b", 1)];
    assert_eq!(total_bytes(&files), u64::MAX);
}

#[test]
fn relative_suffix_strips_root_and_slash() {
    assert_eq!(
        relative_suffix("./localdir", "./localdir/a.txt"),
        Some("a.txt".into())
    );
    assert_eq!(
        relative_suffix("./localdir", "./localdir/sub/b.txt"),
        Some("sub/b.txt".into())
    );
    assert_eq!(relative_suffix("./localdir", "./localdir"), None);
    assert_eq!(relative_suffix("a", "ab/c"), None);
    assert_eq!(relative_suffix("a", "b/c"), None);
}

#[test]
fn progress_counts_every_report_once() {
    let mut counter = ProgressCounter::new(35);
    assert_eq!(counter.done, 0);
    assert_eq!(counter.total, 35);
    let reports = vec![
        ProgressReport { bytes: 7 },
        ProgressReport { bytes: 7 },
        ProgressReport { bytes: 7 },
        ProgressReport { bytes: 7 },
        ProgressReport { bytes: 7 },
    ];
    counter.apply_reports(&reports);
    assert_eq!(counter.done, 35);
}

#[test]
fn progress_total_is_order_insensitive() {
    let mut forward = ProgressCounter::new(30);
    forward.apply_reports(&vec![
        ProgressReport { bytes: 10 },
        ProgressReport { bytes: 20 },
    ]);
    let mut backward = ProgressCounter::new(30);
    backward.apply_reports(&vec![
        ProgressReport { bytes: 20 },
        ProgressReport { bytes: 10 },
    ]);
    assert_eq!(forward.done, backward.done);
    assert_eq!(forward.done, 30);
}

#[test]
fn progress_saturates_instead_of_overflowing() {
    let mut counter = ProgressCounter::new(u64::MAX);
    counter.on_report(&ProgressReport { bytes: u64::MAX });
    counter.on_report(&ProgressReport { bytes: 1 });
    assert_eq!(counter.done, u64::MAX);
}

#[test]
fn upload_scenario_maps_keys_and_reaches_full_progress() {
    // cp ./localdir s3://my-bucket/prefix, with a.txt (10 bytes) and
    // sub/b.txt (20 bytes) under ./localdir.
    let src = Location::parse("./localdir");
    let dest = Location::parse("s3://my-bucket/prefix");
    let plan = plan_copy(src, dest).unwrap();
    match plan {
        Plan::Upload {
            host,
            bucket,
            base_key,
            local_root,
        } => {
            assert_eq!(host, None);
            assert_eq!(bucket, "my-bucket");
            assert_eq!(base_key, "prefix");
            assert_eq!(local_root, "./localdir");
            let files = vec![
                file("./localdir/a.txt", "a.txt", 10),
                file("./localdir/sub/b.txt", "sub/b.txt", 20),
            ];
            let targets = upload_targets(&files, &base_key);
            assert_eq!(targets.len(), 2);
            assert_eq!(targets[0].key, "prefix/a.txt");
            assert_eq!(targets[1].key, "prefix/sub/b.txt");
            let mut counter = ProgressCounter::new(total_bytes(&files));
            counter.on_report(&ProgressReport { bytes: 10 });
            counter.on_report(&ProgressReport { bytes: 20 });
            assert_eq!(counter.done, 30);
            assert_eq!(counter.total, 30);
        }
        Plan::DeletePrefix { .. } => panic!("expected an upload plan"),
    }
}

#[test]
fn remove_scenario_deletes_exactly_the_prefix() {
    // rm s3://my-bucket/prefix against objects prefix/x, prefix/y, other/z.
    let plan = plan_remove(Location::parse("s3://my-bucket/prefix")).unwrap();
    match plan {
        Plan::DeletePrefix {
            host,
            bucket,
            key_prefix,
        } => {
            assert_eq!(host, None);
            assert_eq!(bucket, "my-bucket");
            assert_eq!(key_prefix, "prefix");
            let mut objects = vec!["prefix/x", "prefix/y", "other/z"];
            objects.retain(|k| !k.starts_with(&key_prefix));
            assert_eq!(objects, vec!["other/z"]);
        }
        Plan::Upload { .. } => panic!("expected a delete plan"),
    }
}

#[test]
fn remote_to_local_copy_is_rejected() {
    let src = Location::parse("s3://bucket/key");
    let dest = Location::parse("./localdir");
    let err = plan_copy(src, dest).unwrap_err();
    assert_eq!(err, PlanError::UnsupportedDirection);
    assert_eq!(
        err.message(),
        "unsupported copy direction: only local to remote is implemented"
    );
}

#[test]
fn local_remove_target_is_rejected() {
    let err = plan_remove(Location::parse("./localdir")).unwrap_err();
    assert_eq!(err, PlanError::NonRemotePrefix);
    assert_eq!(err.message(), "`prefix` must be a remote location");
}

#[test]
fn remote_to_remote_copy_is_rejected() {
    let err = plan_copy(
        Location::parse("s3://a/k"),
        Location::parse("s3://b/k"),
    )
    .unwrap_err();
    assert_eq!(err, PlanError::UnsupportedDirection);
}

#[test]
fn local_to_local_copy_is_rejected() {
    let err = plan_copy(Location::parse("./a"), Location::parse("./b")).unwrap_err();
    assert_eq!(err, PlanError::UnsupportedDirection);
}
