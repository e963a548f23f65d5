use autobricks_worm::cli::mount::{retention_seconds, run, unmount, MountOptions};
use autobricks_worm::cli::CliError;

fn parse(args: &[&str]) -> Result<MountOptions, CliError> {
    MountOptions::parse(&args.iter().map(|s| s.to_string()).collect::<Vec<_>>())
}

fn strings(args: &[&str]) -> Vec<String> {
    args.iter().map(|s| s.to_string()).collect()
}

#[test]
fn retention_is_required_and_expressed_in_days() {
    let options = parse(&["mount", "source", "target", "--retain", "365"]).unwrap();
    assert_eq!(options.retention_days, 365);
    assert!(parse(&["mount", "source", "target"]).is_err());
    assert!(parse(&["mount", "source", "target", "--retain", "-1"]).is_err());
    assert!(
        parse(&[
            "mount",
            "source",
            "target",
            "--retain",
            "18446744073709551615"
        ])
        .is_err()
    );
    assert!(parse(&["mount", "source", "target", "--retain", "0"]).is_ok());
}

#[test]
fn mount_request_keeps_paths_and_checks_the_deadline_at_a_given_time() {
    let args = strings(&["mount", "/data", "/mnt/worm", "--retain", "+2"]);
    let options = MountOptions::parse_at(&args, 1_000).unwrap();
    assert_eq!(options.source, "/data");
    assert_eq!(options.mountpoint, "/mnt/worm");
    assert_eq!(options.retention_days, 2);
    let late = u64::MAX - 2 * 86_400 + 1;
    assert_eq!(MountOptions::parse_at(&args, late).unwrap_err(), CliError::MountUsage);
    assert!(MountOptions::parse_at(&args, late - 1).is_ok());
    let max_days = (u64::MAX / 86_400).to_string();
    let args = strings(&["mount", "s", "t", "--retain", &max_days]);
    assert!(MountOptions::parse_at(&args, 0).is_ok());
    let too_many = (u64::MAX / 86_400 + 1).to_string();
    let args = strings(&["mount", "s", "t", "--retain", &too_many]);
    assert_eq!(MountOptions::parse_at(&args, 0).unwrap_err(), CliError::MountUsage);
    for bad in [
        vec!["mount", "s", "t", "--retain", ""],
        vec!["mount", "s", "t", "--retain", "+"],
        vec!["mount", "s", "t", "--retain", "1 "],
        vec!["mount", "s", "t", "--keep", "1"],
        vec!["Mount", "s", "t", "--retain", "1"],
        vec!["mount", "s", "t", "--retain", "1", "extra"],
    ] {
        assert_eq!(MountOptions::parse_at(&strings(&bad), 0).unwrap_err(), CliError::MountUsage);
    }
}

#[test]
fn mount_and_unmount_commands_report_usage_and_platform_support() {
    assert_eq!(run(&strings(&["mount"])).unwrap_err(), CliError::MountUsage);
    let options = run(&strings(&["mount", "s", "t", "--retain", "1"])).unwrap();
    assert_eq!(options.source, "s");
    assert_eq!(options.mountpoint, "t");
    assert_eq!(options.retention_days, 1);
    assert!(!options.allow_other);
    let options = run(&strings(&[
        "mount",
        "/worm-storage",
        "/mnt/worm-storage",
        "--retain",
        "30",
        "--allow-other",
    ]))
    .unwrap();
    assert_eq!(options.retention_days, 30);
    assert!(options.allow_other);
    assert_eq!(
        run(&strings(&["mount", "s", "t", "--retain", "1", "--allow"])).unwrap_err(),
        CliError::MountUsage
    );
    assert_eq!(unmount(&strings(&["unmount"])), Err(CliError::UnmountUsage));
    assert_eq!(unmount(&strings(&["unmount", "/mnt/worm"])), Err(CliError::UnmountUnsupported));
    assert_eq!(retention_seconds(365), Ok(365 * 86_400));
    assert_eq!(retention_seconds(u64::MAX), Err(CliError::RetentionDaysOverflow));
}
