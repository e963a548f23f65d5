//! `mount SOURCE MOUNTPOINT --retain DAYS` and `unmount MOUNTPOINT`.
use super::{parse_u64, spec_parse_u64, text_bytes, text_is, CliError};
use crate::clock::unix_now;
use vstd::prelude::*;

verus! {

/// A parsed mount request.
#[derive(Debug)]
pub struct MountOptions {
    pub source: String,
    pub mountpoint: String,
    pub retention_days: u64,
    /// Whether users other than the one who mounts may use the volume.
    pub allow_other: bool,
}

/// Seconds in a day.
pub const SECONDS_PER_DAY: u64 = 86400;

/// The bytes of `mount`.
pub open spec fn mount_word() -> Seq<u8> {
    seq![109u8, 111u8, 117u8, 110u8, 116u8]
}

/// The bytes of `--retain`.
pub open spec fn retain_flag() -> Seq<u8> {
    seq![45u8, 45u8, 114u8, 101u8, 116u8, 97u8, 105u8, 110u8]
}

/// The bytes of `--allow-other`.
pub open spec fn allow_other_flag() -> Seq<u8> {
    seq![45u8, 45u8, 97u8, 108u8, 108u8, 111u8, 119u8, 45u8, 111u8, 116u8, 104u8, 101u8, 114u8]
}

/// The retention in days of a well-formed mount command line: `mount`, the
/// source, the mountpoint, `--retain` and a number of days whose length in
/// seconds fits in 64 bits, optionally followed by `--allow-other`.
pub open spec fn spec_mount_days(args: Seq<String>) -> Option<u64> {
    if !(args.len() == 5 || (args.len() == 6 && text_bytes(args[5]) == allow_other_flag()))
        || text_bytes(args[0]) != mount_word() || text_bytes(args[3]) != retain_flag() {
        None
    } else {
        match spec_parse_u64(text_bytes(args[4])) {
            Some(days) => if days * 86400 > u64::MAX {
                None
            } else {
                Some(days)
            },
            None => None,
        }
    }
}

/// Whether a mount request made at `now` is accepted: the command line is
/// well formed and a file created now can reach its retention deadline.
pub open spec fn spec_mount_accepted(args: Seq<String>, now: u64) -> bool {
    match spec_mount_days(args) {
        Some(days) => now + days * 86400 <= u64::MAX,
        None => false,
    }
}

/// Reads the retention in days from a mount command line.
pub fn mount_retention_days(args: &[String]) -> (r: Result<u64, CliError>)
    ensures
        match r {
            Ok(days) => spec_mount_days(args@) == Some(days),
            Err(e) => spec_mount_days(args@) is None && e == CliError::MountUsage,
        },
{
    let allow_other: [u8; 13] = [45u8, 45u8, 97u8, 108u8, 108u8, 111u8, 119u8, 45u8, 111u8, 116u8, 104u8, 101u8, 114u8];
    assert(allow_other@ =~= allow_other_flag());
    if !(args.len() == 5 || (args.len() == 6 && text_is(&args[5], &allow_other))) {
        return Err(CliError::MountUsage);
    }
    let mount: [u8; 5] = [109u8, 111u8, 117u8, 110u8, 116u8];
    let retain: [u8; 8] = [45u8, 45u8, 114u8, 101u8, 116u8, 97u8, 105u8, 110u8];
    assert(mount@ =~= mount_word());
    assert(retain@ =~= retain_flag());
    if !text_is(&args[0], &mount) || !text_is(&args[3], &retain) {
        return Err(CliError::MountUsage);
    }
    let days = match parse_u64(args[4].as_str().as_bytes()) {
        Some(days) => days,
        None => return Err(CliError::MountUsage),
    };
    match days.checked_mul(SECONDS_PER_DAY) {
        Some(_) => Ok(days),
        None => Err(CliError::MountUsage),
    }
}

impl MountOptions {
    /// Parses a mount command line for a request made at `now`.
    pub fn parse_at(args: &[String], now: u64) -> (r: Result<Self, CliError>)
        ensures
            match r {
                Ok(options) => {
                    &&& spec_mount_accepted(args@, now)
                    &&& spec_mount_days(args@) == Some(options.retention_days)
                    &&& options.source@ == args@[1]@
                    &&& options.mountpoint@ == args@[2]@
                    &&& options.allow_other == (args@.len() == 6)
                },
                Err(e) => !spec_mount_accepted(args@, now) && e == CliError::MountUsage,
            },
    {
        let days = match mount_retention_days(args) {
            Ok(days) => days,
            Err(e) => return Err(e),
        };
        let seconds = days * SECONDS_PER_DAY;
        if now.checked_add(seconds).is_none() {
            return Err(CliError::MountUsage);
        }
        Ok(
            MountOptions {
                source: args[1].clone(),
                mountpoint: args[2].clone(),
                retention_days: days,
                allow_other: args.len() == 6,
            },
        )
    }

    /// Parses a mount command line, judging the retention against the
    /// current time. The clock is read only for a well-formed command line.
    pub fn parse(args: &[String]) -> (r: Result<Self, CliError>)
        ensures
            spec_mount_days(args@) is None ==> r == Err::<Self, CliError>(CliError::MountUsage),
            r matches Ok(options) ==> {
                &&& spec_mount_days(args@) == Some(options.retention_days)
                &&& options.source@ == args@[1]@
                &&& options.mountpoint@ == args@[2]@
                &&& options.allow_other == (args@.len() == 6)
            },
            r matches Err(e) ==> e == CliError::MountUsage || e == CliError::ClockBeforeEpoch,
            r == Err::<Self, CliError>(CliError::MountUsage) ==> spec_mount_days(args@) is None
                || exists|now: u64| !#[trigger] spec_mount_accepted(args@, now),
    {
        match mount_retention_days(args) {
            Ok(_) => {},
            Err(e) => return Err(e),
        }
        let now = match unix_now() {
            Some(now) => now,
            None => return Err(CliError::ClockBeforeEpoch),
        };
        Self::parse_at(args, now)
    }
}

/// The `mount` command: the accepted request, which the program then mounts
/// with the platform's filesystem adapter.
pub fn run(args: &[String]) -> (r: Result<MountOptions, CliError>)
    ensures
        spec_mount_days(args@) is None ==> r == Err::<MountOptions, CliError>(CliError::MountUsage),
        r matches Ok(options) ==> {
            &&& spec_mount_days(args@) == Some(options.retention_days)
            &&& options.source@ == args@[1]@
            &&& options.mountpoint@ == args@[2]@
            &&& options.allow_other == (args@.len() == 6)
        },
        r matches Err(e) ==> e == CliError::MountUsage || e == CliError::ClockBeforeEpoch,
        r == Err::<MountOptions, CliError>(CliError::MountUsage) ==> spec_mount_days(args@) is None
            || exists|now: u64| !#[trigger] spec_mount_accepted(args@, now),
{
    MountOptions::parse(args)
}

/// The `unmount` command: exactly one mountpoint after the command word.
/// The unmount itself needs macOS; elsewhere it is refused as unsupported.
pub fn unmount(args: &[String]) -> (r: Result<(), CliError>)
    ensures
        r == if args@.len() != 2 {
            Err::<(), CliError>(CliError::UnmountUsage)
        } else {
            Err::<(), CliError>(CliError::UnmountUnsupported)
        },
{
    if args.len() != 2 {
        return Err(CliError::UnmountUsage);
    }
    Err(CliError::UnmountUnsupported)
}

/// New files created through a mount keep their data for the configured
/// number of days, in seconds.
pub fn retention_seconds(days: u64) -> (r: Result<u64, CliError>)
    ensures
        match r {
            Ok(seconds) => seconds == days * 86400,
            Err(e) => days * 86400 > u64::MAX && e == CliError::RetentionDaysOverflow,
        },
{
    match days.checked_mul(SECONDS_PER_DAY) {
        Some(seconds) => Ok(seconds),
        None => Err(CliError::RetentionDaysOverflow),
    }
}

/// Any number of days is a valid retention: a five-word line `mount SOURCE
/// MOUNTPOINT --retain DAYS`, or the same with `--allow-other` as a sixth
/// word, whose days read as an unsigned number and whose deadline, counted
/// from `now`, fits in 64 bits, is accepted at `now` with exactly those days.
pub proof fn law_mount_accepts_every_retention_that_fits(args: Seq<String>, now: u64, days: u64)
    requires
        args.len() == 5 || (args.len() == 6 && text_bytes(args[5]) == seq![
            45u8,
            45u8,
            97u8,
            108u8,
            108u8,
            111u8,
            119u8,
            45u8,
            111u8,
            116u8,
            104u8,
            101u8,
            114u8,
        ]),
        text_bytes(args[0]) == seq![109u8, 111u8, 117u8, 110u8, 116u8],
        text_bytes(args[3]) == seq![45u8, 45u8, 114u8, 101u8, 116u8, 97u8, 105u8, 110u8],
        spec_parse_u64(text_bytes(args[4])) == Some(days),
        now + days * 86400 <= 0xffff_ffff_ffff_ffffu64,
    ensures
        spec_mount_accepted(args, now),
        spec_mount_days(args) == Some(days),
{
    assert(mount_word() =~= seq![109u8, 111u8, 117u8, 110u8, 116u8]);
    assert(retain_flag() =~= seq![45u8, 45u8, 114u8, 101u8, 116u8, 97u8, 105u8, 110u8]);
    assert(allow_other_flag() =~= seq![
        45u8,
        45u8,
        97u8,
        108u8,
        108u8,
        111u8,
        119u8,
        45u8,
        111u8,
        116u8,
        104u8,
        101u8,
        114u8,
    ]);
}

} // verus!
