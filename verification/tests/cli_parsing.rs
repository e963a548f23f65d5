use autobricks_worm::cli::parse_u64;
use autobricks_worm::cli::storage::{parse_storage_command, StorageOperation};
use autobricks_worm::cli::{program_command, CliError, ProgramCommand};

fn strings(args: &[&str]) -> Vec<String> {
    args.iter().map(|s| s.to_string()).collect()
}

#[test]
fn unsigned_numbers_parse_like_the_standard_library() {
    for text in ["0", "7", "+7", "007", "18446744073709551615", "", "+", "-1", "1a", " 1", "18446744073709551616", "99999999999999999999999"] {
        assert_eq!(parse_u64(text.as_bytes()), text.parse::<u64>().ok(), "{text}");
    }
}

#[test]
fn storage_commands_are_checked_before_opening_storage() {
    let command = parse_storage_command(&strings(&["storage", "/root", "create", "data", "3600"])).unwrap();
    assert_eq!(command.root, "/root");
    assert_eq!(command.name, "data");
    assert_eq!(command.operation, StorageOperation::Create);
    assert_eq!(command.retention, Some(3600));
    let command = parse_storage_command(&strings(&["storage", "/root", "verify", "data"])).unwrap();
    assert_eq!(command.operation, StorageOperation::Verify);
    assert_eq!(command.retention, None);
    assert_eq!(
        parse_storage_command(&strings(&["storage", "/root", "read"])).unwrap_err(),
        CliError::StorageUsage
    );
    assert_eq!(
        parse_storage_command(&strings(&["storage", "/root", "create", "data"])).unwrap_err(),
        CliError::InvalidStorageCommand
    );
    assert_eq!(
        parse_storage_command(&strings(&["storage", "/root", "read", "data", "x"])).unwrap_err(),
        CliError::InvalidStorageCommand
    );
    assert_eq!(
        parse_storage_command(&strings(&["store", "/root", "read", "data"])).unwrap_err(),
        CliError::InvalidStorageCommand
    );
    assert_eq!(
        parse_storage_command(&strings(&["storage", "/root", "rename", "data"])).unwrap_err(),
        CliError::InvalidStorageCommand
    );
    assert_eq!(
        parse_storage_command(&strings(&["storage", "/root", "create", "data", "-5"])).unwrap_err(),
        CliError::InvalidRetention
    );
    for (word, op) in [
        ("append", StorageOperation::Append),
        ("read", StorageOperation::Read),
        ("meta", StorageOperation::Meta),
        ("delete", StorageOperation::Delete),
        ("mkdir", StorageOperation::Mkdir),
    ] {
        assert_eq!(parse_storage_command(&strings(&["storage", "r", word, "n"])).unwrap().operation, op);
    }
}

#[test]
fn program_arguments_select_a_command() {
    let args = |words: &[&str]| words.iter().map(|w| w.to_string()).collect::<Vec<_>>();
    assert_eq!(program_command(&args(&[])), ProgramCommand::Help);
    assert_eq!(program_command(&args(&["--help"])), ProgramCommand::Help);
    assert_eq!(program_command(&args(&["-h"])), ProgramCommand::Help);
    assert_eq!(program_command(&args(&["--version"])), ProgramCommand::Version);
    assert_eq!(program_command(&args(&["-V"])), ProgramCommand::Version);
    assert_eq!(program_command(&args(&["--help", "x"])), ProgramCommand::Unsupported);
    assert_eq!(program_command(&args(&["mount", "s", "t"])), ProgramCommand::Mount);
    assert_eq!(program_command(&args(&["unmount", "t"])), ProgramCommand::Unmount);
    assert_eq!(program_command(&args(&["storage", "r", "read", "p"])), ProgramCommand::Storage);
    assert_eq!(program_command(&args(&["Storage"])), ProgramCommand::Unsupported);
}
