use bank_network::{bank_commands, chat_commands, relay_commands};

#[test]
fn chat_help_dialog() {
    let expected = "Possible commands:\n\
      Connect - This creates a new chat\n\
      Update - This retrieves any new messages and connections\n\
      List - This displays all current connections\n\
      Message - This sends a message\n\
      Test - No Help Message :(\n\
      Exit - This exits the program\n";
    let expected = expected.replace("\n", "\n      ");
    let expected = expected[..expected.len() - 6].to_string();
    assert_eq!(chat_commands::Commands::get_help_dialog(), expected);
}

#[test]
fn bank_help_dialog() {
    let dialog = bank_commands::Commands::get_help_dialog();
    assert_eq!(
        dialog,
        "Possible commands:\n      List_Accounts - This list all your bank accounts\n      \
         Create_Account - This will create a account\n      \
         Account_Info - This provides detailed information about an account\n      \
         Exit - This exits the program\n"
    );
}

#[test]
fn relay_help_dialog() {
    assert_eq!(
        relay_commands::Commands::get_help_dialog(),
        "Possible commands:\n      Update - This retrieves any new messages and connections\n      \
         List - This displays all current connections\n      \
         message - This sends a message\n      \
         Exit - This exits the program\n"
    );
}

#[test]
fn commands_parse_by_name() {
    assert!(chat_commands::Commands::from_str("Connect") == Some(chat_commands::Commands::Connect));
    assert!(chat_commands::Commands::from_str("Test") == Some(chat_commands::Commands::Test));
    assert!(chat_commands::Commands::from_str("connect").is_none());
    assert!(chat_commands::Commands::from_str("Exit ").is_none());
    assert!(bank_commands::Commands::from_str("Account_Info")
        == Some(bank_commands::Commands::Account_Info));
    assert!(relay_commands::Commands::from_str("Message") == Some(relay_commands::Commands::Message));
    assert!(relay_commands::Commands::from_str("message").is_none());
    for c in chat_commands::Commands::all() {
        assert!(chat_commands::Commands::from_str(c.name()) == Some(c));
    }
}

#[test]
fn command_messages() {
    assert_eq!(chat_commands::Commands::Test.get_message(), None);
    assert_eq!(relay_commands::Commands::Message.get_message(), Some("message"));
    assert_eq!(
        bank_commands::Commands::Exit.get_detailed_message(),
        Some("This exits the program")
    );
}
