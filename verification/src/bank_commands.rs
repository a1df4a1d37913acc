//! The menu of the banking client.

use vstd::prelude::*;
use vstd::string::*;

verus! {

/// The commands of the banking client.
#[derive(PartialEq, Eq, Structural, Clone, Copy, Debug)]
#[allow(non_camel_case_types)]
pub enum Commands {
    List_Accounts,
    Create_Account,
    Account_Info,
    Exit,
}

/// The short message of a command, where it has one.
pub open spec fn message_of(c: Commands) -> Option<Seq<char>> {
    match c {
        Commands::List_Accounts => Some("List_Accounts"@),
        Commands::Create_Account => Some("Create_Account"@),
        Commands::Account_Info => Some("Account_Info"@),
        Commands::Exit => Some("Exit"@),
    }
}

/// The detailed help message of a command, where it has one.
pub open spec fn detailed_message_of(c: Commands) -> Option<Seq<char>> {
    match c {
        Commands::List_Accounts => Some("This list all your bank accounts"@),
        Commands::Create_Account => Some("This will create a account"@),
        Commands::Account_Info => Some("This provides detailed information about an account"@),
        Commands::Exit => Some("This exits the program"@),
    }
}

/// The name of a command, as the user types it.
pub open spec fn name_of(c: Commands) -> Seq<char> {
    match c {
        Commands::List_Accounts => "List_Accounts"@,
        Commands::Create_Account => "Create_Account"@,
        Commands::Account_Info => "Account_Info"@,
        Commands::Exit => "Exit"@,
    }
}

/// Every command, in the order the menu lists them.
pub open spec fn all_commands() -> Seq<Commands> {
    seq![Commands::List_Accounts, Commands::Create_Account, Commands::Account_Info, Commands::Exit]
}

/// The menu line of a command: its message (or else its name), a dash, and
/// its detailed message (or else a note that there is no help).
pub open spec fn help_line(c: Commands) -> Seq<char> {
    let shown = match message_of(c) {
        Some(m) => m,
        None => name_of(c),
    };
    let detail = match detailed_message_of(c) {
        Some(d) => d,
        None => "No Help message :("@,
    };
    "      "@ + shown + " - "@ + detail + "\n"@
}

/// The menu lines of the given commands, in order.
pub open spec fn help_lines(cmds: Seq<Commands>) -> Seq<char>
    decreases cmds.len(),
{
    if cmds.len() == 0 {
        Seq::empty()
    } else {
        help_lines(cmds.drop_last()) + help_line(cmds.last())
    }
}

/// The whole help menu.
pub open spec fn help_dialog() -> Seq<char> {
    "Possible commands:\n"@ + help_lines(all_commands())
}

/// The command a typed line names: exactly the name of a command.
pub open spec fn command_named(input: Seq<char>) -> Option<Commands> {
    if input == "List_Accounts"@ {
        Some(Commands::List_Accounts)
    } else if input == "Create_Account"@ {
        Some(Commands::Create_Account)
    } else if input == "Account_Info"@ {
        Some(Commands::Account_Info)
    } else if input == "Exit"@ {
        Some(Commands::Exit)
    } else {
        None
    }
}

impl Commands {
    /// Every command, in the order the menu lists them.
    pub fn all() -> (res: Vec<Commands>)
        ensures
            res@ == all_commands(),
    {
        let mut res: Vec<Commands> = Vec::new();
        res.push(Commands::List_Accounts);
        res.push(Commands::Create_Account);
        res.push(Commands::Account_Info);
        res.push(Commands::Exit);
        assert(res@ =~= all_commands());
        res
    }

    /// The name of the command.
    pub fn name(&self) -> (res: &'static str)
        ensures
            res@ == name_of(*self),
    {
        match self {
            Commands::List_Accounts => "List_Accounts",
            Commands::Create_Account => "Create_Account",
            Commands::Account_Info => "Account_Info",
            Commands::Exit => "Exit",
        }
    }

    /// The short message of the command, where it has one.
    pub fn get_message(&self) -> (res: Option<&'static str>)
        ensures
            match res {
                Some(s) => message_of(*self) == Some(s@),
                None => message_of(*self) is None,
            },
    {
        match self {
            Commands::List_Accounts => Some("List_Accounts"),
            Commands::Create_Account => Some("Create_Account"),
            Commands::Account_Info => Some("Account_Info"),
            Commands::Exit => Some("Exit"),
        }
    }

    /// The detailed help message of the command, where it has one.
    pub fn get_detailed_message(&self) -> (res: Option<&'static str>)
        ensures
            match res {
                Some(s) => detailed_message_of(*self) == Some(s@),
                None => detailed_message_of(*self) is None,
            },
    {
        match self {
            Commands::List_Accounts => Some("This list all your bank accounts"),
            Commands::Create_Account => Some("This will create a account"),
            Commands::Account_Info => Some("This provides detailed information about an account"),
            Commands::Exit => Some("This exits the program"),
        }
    }

    /// The help menu listing every command.
    pub fn get_help_dialog() -> (res: String)
        ensures
            res@ == help_dialog(),
    {
        let cmds = Commands::all();
        let mut out = String::from_str("Possible commands:\n");
        let mut i: usize = 0;
        while i < cmds.len()
            invariant
                cmds@ == all_commands(),
                i <= cmds@.len(),
                out@ == "Possible commands:\n"@ + help_lines(cmds@.subrange(0, i as int)),
            decreases cmds@.len() - i,
        {
            let c = cmds[i];
            out.append("      ");
            match c.get_message() {
                Some(m) => out.append(m),
                None => out.append(c.name()),
            }
            out.append(" - ");
            match c.get_detailed_message() {
                Some(d) => out.append(d),
                None => out.append("No Help message :("),
            }
            out.append("\n");
            assert(cmds@.subrange(0, i + 1).drop_last() =~= cmds@.subrange(0, i as int));
            i = i + 1;
        }
        assert(cmds@.subrange(0, cmds@.len() as int) =~= cmds@);
        out
    }

    /// The command named by a line the user typed, or `None` when it names
    /// no command.
    pub fn from_str(input: &str) -> (res: Option<Commands>)
        ensures
            res == command_named(input@),
    {
        let text = String::from_str(input);
        if text == String::from_str("List_Accounts") {
            return Some(Commands::List_Accounts);
        }
        if text == String::from_str("Create_Account") {
            return Some(Commands::Create_Account);
        }
        if text == String::from_str("Account_Info") {
            return Some(Commands::Account_Info);
        }
        if text == String::from_str("Exit") {
            return Some(Commands::Exit);
        }
        None
    }
}

/// Typing the name of a command selects that command.
pub proof fn lemma_command_name_selects(c: Commands)
    ensures
        command_named(name_of(c)) == Some(c),
{
    reveal_strlit("List_Accounts");
    reveal_strlit("Create_Account");
    reveal_strlit("Account_Info");
    reveal_strlit("Exit");
    assert("List_Accounts"@[0] == 'L');
    assert("Create_Account"@[0] == 'C');
    assert("Account_Info"@[0] == 'A');
    assert("Exit"@[0] == 'E');
}

/// Typing the word the help menu shows for a command selects that command,
/// and that word is the command's name: what the menu offers is what the
/// parser accepts.
pub proof fn lemma_menu_word_selects(c: Commands)
    ensures
        message_of(c) is Some,
        command_named(message_of(c)->0) == Some(c),
        name_of(c) == message_of(c)->0,
{
    reveal_strlit("List_Accounts");
    reveal_strlit("Create_Account");
    reveal_strlit("Account_Info");
    reveal_strlit("Exit");
    assert("List_Accounts"@[0] == 'L');
    assert("Create_Account"@[0] == 'C');
    assert("Account_Info"@[0] == 'A');
    assert("Exit"@[0] == 'E');
}

} // verus!
