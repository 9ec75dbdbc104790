use my_tools::command::addon_help;
use my_tools::hello_world::{HelloInputCommand, HelloWorldCommand};
use my_tools::ip_network::GetIpAddressCommand;
use my_tools::IpNetworkAddon;
use my_tools::{HelloWorldAddon, MyToolsAddon, MyToolsAddonCommand, MyToolsError, ParseOutcome};

fn run(args: Vec<String>) -> Result<String, MyToolsError> {
    match HelloWorldAddon.parse(&args)? {
        ParseOutcome::Command(cmd) => cmd.execute(),
        ParseOutcome::HelpRequested => panic!("unexpected help request"),
    }
}

#[test]
fn get_keyword() {
    let keyword = HelloWorldAddon.get_keyword();
    assert_eq!(keyword, "hello");
}

#[test]
fn command_hello() {
    let args = vec![];
    assert_eq!(run(args).expect("Failed to parse command"), String::from("Hello, world!"));
}

#[test]
fn command_hello_input() {
    let args = vec!["world123".to_string()];
    assert_eq!(run(args).expect("Failed to parse command"), String::from("Hello, world123!"));
}

#[test]
fn parse_over_args() {
    let args = vec!["world".to_string(), "test".to_string()];
    let cmd = HelloWorldAddon.parse(&args);
    assert!(cmd.is_err());
}

#[test]
fn hello_invalid_command_message() {
    let args = vec!["a".to_string(), "b".to_string()];
    match HelloWorldAddon.parse(&args) {
        Err(e) => assert_eq!(e, MyToolsError::InvalidCommand("a b".to_string())),
        Ok(_) => panic!("expected an error"),
    }
}

#[test]
fn hello_help_request() {
    for flag in ["--help", "-h"] {
        let args = vec![flag.to_string()];
        assert!(matches!(HelloWorldAddon.parse(&args), Ok(ParseOutcome::HelpRequested)));
    }
}

#[test]
fn hello_lists_its_commands() {
    let list = HelloWorldAddon.get_list_commands();
    assert_eq!(list.len(), 2);
    assert_eq!(list[1].inputs_msg, vec!["<name>".to_string()]);
}

#[test]
fn error_messages() {
    assert_eq!(MyToolsError::AddonNotFound("x".to_string()).message(), "Unknown addon: x");
    assert_eq!(MyToolsError::InvalidCommand("y".to_string()).message(), "Invalid command: y");
    assert_eq!(
        MyToolsError::ExecutionCommandError("z".to_string()).message(),
        "Error while execution command: z"
    );
}

#[test]
fn help_page_text() {
    let page = addon_help("hello", &HelloWorldAddon.get_list_commands());
    assert_eq!(
        page,
        "\n=== Addon: hello ===\n\nUsage: hello <COMMAND>\n\nCommands:\n\
         \tPrint \"Hello, world!\"\n\t\tmy_tools hello \n\
         \tPrint \"Hello, <name>!\"\n\t\tmy_tools hello <name>\n"
    );
    assert_eq!(HelloWorldAddon.get_help(), page);
}

#[test]
fn command_metadata() {
    assert_eq!(HelloWorldCommand::get_command_input(), vec![String::new()]);
    assert_eq!(HelloWorldCommand::get_command_help(), "Print \"Hello, world!\"");
    assert_eq!(HelloInputCommand::get_command_input(), vec!["<name>".to_string()]);
    assert_eq!(HelloInputCommand::get_command_help(), "Print \"Hello, <name>!\"");
    let ip = GetIpAddressCommand::get_command_input();
    assert_eq!(
        ip,
        vec![
            "get address <ip/cidr>".to_string(),
            "get address <ip/mask>".to_string(),
            "get address <ip> <cidr>".to_string(),
            "get address <ip> <mask>".to_string(),
        ]
    );
    let list = IpNetworkAddon.get_list_commands();
    assert_eq!(list.len(), 3);
    assert_eq!(list[2].help_msg, "Get the IP network address for a given IP object");
    assert_eq!(list[1].inputs_msg[3], "get netmask <ip> <mask>");
}
