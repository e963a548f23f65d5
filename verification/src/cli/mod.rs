//! Command-line argument decisions for mounting and for direct backing-store
//! commands.
pub mod mount;
pub mod storage;

use crate::storage::store::same_bytes;
use mount::mount_word;
use storage::storage_word;
use vstd::prelude::*;
use vstd::utf8::encode_utf8;


verus! {

/// Why a command line is refused.
#[derive(Debug, Clone, Copy, PartialEq, Eq, Structural)]
pub enum CliError {
    /// The `mount` command line is malformed.
    MountUsage,
    /// The `unmount` command line is malformed.
    UnmountUsage,
    /// Unmounting needs macOS.
    UnmountUnsupported,
    /// The system clock reads a time before the Unix epoch.
    ClockBeforeEpoch,
    /// A storage command needs a root, an operation and a path.
    StorageUsage,
    /// The storage operation or its arguments are not recognized.
    InvalidStorageCommand,
    /// Retention was given but is not an unsigned number of seconds.
    InvalidRetention,
    /// Retention in days does not fit in seconds.
    RetentionDaysOverflow,
}

/// The class of a command-line failure.
#[derive(Debug, Clone, Copy, PartialEq, Eq, Structural)]
pub enum CliErrorKind {
    InvalidInput,
    Unsupported,
    Other,
}

/// The sentence that describes each failure.
pub open spec fn cli_error_message(e: CliError) -> Seq<char> {
    match e {
        CliError::MountUsage => "Usage: ab-worm mount SOURCE MOUNTPOINT --retain DAYS (unsigned days, 0 permits immediate deletion)"@,
        CliError::UnmountUsage => "Usage: ab-worm unmount MOUNTPOINT"@,
        CliError::UnmountUnsupported => "This unmount command uses macOS"@,
        CliError::ClockBeforeEpoch => "System clock is before the Unix epoch"@,
        CliError::StorageUsage => "Run ab-worm --help for usage"@,
        CliError::InvalidStorageCommand => "Invalid storage command"@,
        CliError::InvalidRetention => "Retention must be an unsigned number of seconds"@,
        CliError::RetentionDaysOverflow => "Retention days overflow"@,
    }
}

impl CliError {
    /// The class of the failure.
    pub fn kind(&self) -> (r: CliErrorKind)
        ensures
            r == match *self {
                CliError::UnmountUnsupported => CliErrorKind::Unsupported,
                CliError::ClockBeforeEpoch => CliErrorKind::Other,
                _ => CliErrorKind::InvalidInput,
            },
    {
        match self {
            CliError::UnmountUnsupported => CliErrorKind::Unsupported,
            CliError::ClockBeforeEpoch => CliErrorKind::Other,
            _ => CliErrorKind::InvalidInput,
        }
    }

    /// A sentence that describes the failure.
    pub fn message(&self) -> (r: &'static str)
        ensures
            r@ == cli_error_message(*self),
    {
        match self {
            CliError::MountUsage => "Usage: ab-worm mount SOURCE MOUNTPOINT --retain DAYS (unsigned days, 0 permits immediate deletion)",
            CliError::UnmountUsage => "Usage: ab-worm unmount MOUNTPOINT",
            CliError::UnmountUnsupported => "This unmount command uses macOS",
            CliError::ClockBeforeEpoch => "System clock is before the Unix epoch",
            CliError::StorageUsage => "Run ab-worm --help for usage",
            CliError::InvalidStorageCommand => "Invalid storage command",
            CliError::InvalidRetention => "Retention must be an unsigned number of seconds",
            CliError::RetentionDaysOverflow => "Retention days overflow",
        }
    }
}

/// The UTF-8 bytes of a string.
pub open spec fn text_bytes(s: String) -> Seq<u8> {
    encode_utf8(s@)
}

/// Whether the text of `s` is exactly the bytes `expected`.
pub fn text_is(s: &String, expected: &[u8]) -> (r: bool)
    ensures
        r == (text_bytes(*s) == expected@),
{
    same_bytes(s.as_str().as_bytes(), expected)
}

/// The value of a run of ASCII decimal digits.
pub open spec fn digits_value(digits: Seq<u8>) -> int
    decreases digits.len(),
{
    if digits.len() == 0 {
        0
    } else {
        digits_value(digits.drop_last()) * 10 + (digits.last() - 48)
    }
}

/// Every byte is an ASCII decimal digit.
pub open spec fn all_digits(digits: Seq<u8>) -> bool {
    forall|i: int| 0 <= i < digits.len() ==> 48 <= #[trigger] digits[i] <= 57
}

/// The digits of an unsigned number: an optional leading `+` is dropped.
pub open spec fn unsigned_digits(text: Seq<u8>) -> Seq<u8> {
    if text.len() > 0 && text[0] == 43u8 {
        text.drop_first()
    } else {
        text
    }
}

/// How `u64::from_str` reads text: an optional `+`, then at least one decimal
/// digit and nothing else, with a value that fits in 64 bits.
pub open spec fn spec_parse_u64(text: Seq<u8>) -> Option<u64> {
    let digits = unsigned_digits(text);
    if digits.len() == 0 || !all_digits(digits) || digits_value(digits) > u64::MAX {
        None
    } else {
        Some(digits_value(digits) as u64)
    }
}

proof fn lemma_digits_value_grows(digits: Seq<u8>, j: int)
    requires
        all_digits(digits),
        0 <= j <= digits.len(),
    ensures
        0 <= digits_value(digits.subrange(0, j)) <= digits_value(digits),
    decreases digits.len(),
{
    if digits.len() > 0 {
        if j == digits.len() {
            assert(digits.subrange(0, j) =~= digits);
            lemma_digits_value_grows(digits.drop_last(), digits.len() - 1);
            assert(digits.drop_last().subrange(0, digits.len() - 1) =~= digits.drop_last());
        } else {
            lemma_digits_value_grows(digits.drop_last(), j);
            assert(digits.drop_last().subrange(0, j) =~= digits.subrange(0, j));
            lemma_digits_value_grows(digits.drop_last(), digits.len() - 1);
            assert(digits.drop_last().subrange(0, digits.len() - 1) =~= digits.drop_last());
        }
    } else {
        assert(digits.subrange(0, j) =~= digits);
    }
}

/// Reads an unsigned decimal number the way `u64::from_str` does.
pub fn parse_u64(text: &[u8]) -> (r: Option<u64>)
    ensures
        r == spec_parse_u64(text@),
{
    let start: usize = if text.len() > 0 && text[0] == 43u8 {
        1
    } else {
        0
    };
    let ghost digits = unsigned_digits(text@);
    assert(digits =~= text@.subrange(start as int, text@.len() as int));
    if start >= text.len() {
        return None;
    }
    let mut value: u64 = 0;
    let mut i: usize = start;
    while i < text.len()
        invariant
            start <= i <= text.len(),
            digits == unsigned_digits(text@),
            digits =~= text@.subrange(start as int, text@.len() as int),
            all_digits(digits.subrange(0, i - start)),
            value == digits_value(digits.subrange(0, i - start)),
        decreases text.len() - i,
    {
        let c = text[i];
        if c < 48u8 || c > 57u8 {
            assert(digits[i - start] == c);
            assert(!all_digits(digits));
            return None;
        }
        let ghost before = digits.subrange(0, i - start);
        let ghost after = digits.subrange(0, i - start + 1);
        proof {
            assert(after.drop_last() =~= before);
            assert(after.last() == c);
            assert(all_digits(after));
        }
        let next = match value.checked_mul(10) {
            Some(v) => v.checked_add((c - 48u8) as u64),
            None => None,
        };
        match next {
            Some(v) => {
                value = v;
            },
            None => {
                proof {
                    assert(digits_value(after) == digits_value(before) * 10 + (c - 48));
                    assert(digits_value(after) > u64::MAX);
                    if all_digits(digits) {
                        lemma_digits_value_grows(digits, i - start + 1);
                    }
                }
                return None;
            },
        }
        i = i + 1;
    }
    assert(digits.subrange(0, i - start) =~= digits);
    Some(value)
}

/// What the program does with its command line.
#[derive(Debug, Clone, Copy, PartialEq, Eq, Structural)]
pub enum ProgramCommand {
    /// Print the usage.
    Help,
    /// Print only the banner, which carries the version.
    Version,
    /// Mount a backing store.
    Mount,
    /// Unmount a volume.
    Unmount,
    /// Run a direct backing-store command.
    Storage,
    /// The arguments are not understood.
    Unsupported,
}

/// The bytes of `unmount`.
pub open spec fn unmount_word() -> Seq<u8> {
    seq![117u8, 110u8, 109u8, 111u8, 117u8, 110u8, 116u8]
}

/// No arguments, `--help` or `-h` ask for the usage; `--version` or `-V` for
/// the version alone; a first word `mount`, `unmount` or `storage` names a
/// command; anything else is not understood.
pub open spec fn spec_program_command(args: Seq<String>) -> ProgramCommand {
    if args.len() == 0 {
        ProgramCommand::Help
    } else if args.len() == 1 && (text_bytes(args[0]) == seq![45u8, 45u8, 104u8, 101u8, 108u8, 112u8]
        || text_bytes(args[0]) == seq![45u8, 104u8]) {
        ProgramCommand::Help
    } else if args.len() == 1 && (text_bytes(args[0]) == seq![
        45u8,
        45u8,
        118u8,
        101u8,
        114u8,
        115u8,
        105u8,
        111u8,
        110u8,
    ] || text_bytes(args[0]) == seq![45u8, 86u8]) {
        ProgramCommand::Version
    } else if text_bytes(args[0]) == mount_word() {
        ProgramCommand::Mount
    } else if text_bytes(args[0]) == unmount_word() {
        ProgramCommand::Unmount
    } else if text_bytes(args[0]) == storage_word() {
        ProgramCommand::Storage
    } else {
        ProgramCommand::Unsupported
    }
}

/// Decides what the program does with its arguments (the program name excluded).
pub fn program_command(args: &[String]) -> (r: ProgramCommand)
    ensures
        r == spec_program_command(args@),
{
    if args.len() == 0 {
        return ProgramCommand::Help;
    }
    let help: [u8; 6] = [45u8, 45u8, 104u8, 101u8, 108u8, 112u8];
    let help_short: [u8; 2] = [45u8, 104u8];
    let version: [u8; 9] = [45u8, 45u8, 118u8, 101u8, 114u8, 115u8, 105u8, 111u8, 110u8];
    let version_short: [u8; 2] = [45u8, 86u8];
    let mount: [u8; 5] = [109u8, 111u8, 117u8, 110u8, 116u8];
    let unmount: [u8; 7] = [117u8, 110u8, 109u8, 111u8, 117u8, 110u8, 116u8];
    let storage: [u8; 7] = [115u8, 116u8, 111u8, 114u8, 97u8, 103u8, 101u8];
    assert(help@ =~= seq![45u8, 45u8, 104u8, 101u8, 108u8, 112u8]);
    assert(help_short@ =~= seq![45u8, 104u8]);
    assert(version@ =~= seq![45u8, 45u8, 118u8, 101u8, 114u8, 115u8, 105u8, 111u8, 110u8]);
    assert(version_short@ =~= seq![45u8, 86u8]);
    assert(mount@ =~= mount_word());
    assert(unmount@ =~= unmount_word());
    assert(storage@ =~= storage_word());
    if args.len() == 1 && (text_is(&args[0], &help) || text_is(&args[0], &help_short)) {
        ProgramCommand::Help
    } else if args.len() == 1 && (text_is(&args[0], &version) || text_is(&args[0], &version_short)) {
        ProgramCommand::Version
    } else if text_is(&args[0], &mount) {
        ProgramCommand::Mount
    } else if text_is(&args[0], &unmount) {
        ProgramCommand::Unmount
    } else if text_is(&args[0], &storage) {
        ProgramCommand::Storage
    } else {
        ProgramCommand::Unsupported
    }
}

} // verus!
