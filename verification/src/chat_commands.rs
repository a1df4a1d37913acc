//! The menu of the peer-to-peer chat program.

use vstd::prelude::*;
use vstd::string::*;

verus! {

/// The commands of the chat program.
#[derive(PartialEq, Eq, Structural, Clone, Copy, Debug)]
#[allow(non_camel_case_types)]
pub enum Commands {
    Connect,
    Update,
    List,
    Message,
    Test,
    Exit,
}

/// The short message of a command, where it has one.
pub open spec fn message_of(c: Commands) -> Option<Seq<char>> {
    match c {
        Commands::Connect => Some("Connect"@),
        Commands::Update => Some("Update"@),
        Commands::List => Some("List"@),
        Commands::Message => Some("Message"@),
        Commands::Test => None,
        Commands::Exit => Some("Exit"@),
    }
}

/// The detailed help message of a command, where it has one.
pub open spec fn detailed_message_of(c: Commands) -> Option<Seq<char>> {
    match c {
        Commands::Connect => Some("This creates a new chat"@),
        Commands::Update => Some("This retrieves any new messages and connections"@),
        Commands::List => Some("This displays all current connections"@),
        Commands::Message => Some("This sends a message"@),
        Commands::Test => None,
        Commands::Exit => Some("This exits the program"@),
    }
}

/// The name of a command, as the user types it.
pub open spec fn name_of(c: Commands) -> Seq<char> {
    match c {
        Commands::Connect => "Connect"@,
        Commands::Update => "Update"@,
        Commands::List => "List"@,
        Commands::Message => "Message"@,
        Commands::Test => "Test"@,
        Commands::Exit => "Exit"@,
    }
}

/// Every command, in the order the menu lists them.
pub open spec fn all_commands() -> Seq<Commands> {
    seq![Commands::Connect, Commands::Update, Commands::List, Commands::Message, Commands::Test, Commands::Exit]
}

/// The menu line of a command: its message (or else its name), a dash, and
/// its detailed message (or else a note that there is no help).
pub open spec fn help_line(c: Commands) -> Seq<char> {
    let shown = match message_of(c) {
        Some(m) => m,
        None => name_of(c),
    };
    let detail = match detailed_message_of(c) {
        Some(d) => d,
        None => "No Help Message :("@,
    };
    "      "@ + shown + " - "@ + detail + "\n"@
}

/// The menu lines of the given commands, in order.
pub open spec fn help_lines(cmds: Seq<Commands>) -> Seq<char>
    decreases cmds.len(),
{
    if cmds.len() == 0 {
        Seq::empty()
    } else {
        help_lines(cmds.drop_last()) + help_line(cmds.last())
    }
}

/// The whole help menu.
pub open spec fn help_dialog() -> Seq<char> {
    "Possible commands:\n"@ + help_lines(all_commands())
}

/// The command a typed line names: exactly the name of a command.
pub open spec fn command_named(input: Seq<char>) -> Option<Commands> {
    if input == "Connect"@ {
        Some(Commands::Connect)
    } else if input == "Update"@ {
        Some(Commands::Update)
    } else if input == "List"@ {
        Some(Commands::List)
    } else if input == "Message"@ {
        Some(Commands::Message)
    } else if input == "Test"@ {
        Some(Commands::Test)
    } else if input == "Exit"@ {
        Some(Commands::Exit)
    } else {
        None
    }
}

impl Commands {
    /// Every command, in the order the menu lists them.
    pub fn all() -> (res: Vec<Commands>)
        ensures
            res@ == all_commands(),
    {
        let mut res: Vec<Commands> = Vec::new();
        res.push(Commands::Connect);
        res.push(Commands::Update);
        res.push(Commands::List);
        res.push(Commands::Message);
        res.push(Commands::Test);
        res.push(Commands::Exit);
        assert(res@ =~= all_commands());
        res
    }

    /// The name of the command.
    pub fn name(&self) -> (res: &'static str)
        ensures
            res@ == name_of(*self),
    {
        match self {
            Commands::Connect => "Connect",
            Commands::Update => "Update",
            Commands::List => "List",
            Commands::Message => "Message",
            Commands::Test => "Test",
            Commands::Exit => "Exit",
        }
    }

    /// The short message of the command, where it has one.
    pub fn get_message(&self) -> (res: Option<&'static str>)
        ensures
            match res {
                Some(s) => message_of(*self) == Some(s@),
                None => message_of(*self) is None,
            },
    {
        match self {
            Commands::Connect => Some("Connect"),
            Commands::Update => Some("Update"),
            Commands::List => Some("List"),
            Commands::Message => Some("Message"),
            Commands::Test => None,
            Commands::Exit => Some("Exit"),
        }
    }

    /// The detailed help message of the command, where it has one.
    pub fn get_detailed_message(&self) -> (res: Option<&'static str>)
        ensures
            match res {
                Some(s) => detailed_message_of(*self) == Some(s@),
                None => detailed_message_of(*self) is None,
            },
    {
        match self {
            Commands::Connect => Some("This creates a new chat"),
            Commands::Update => Some("This retrieves any new messages and connections"),
            Commands::List => Some("This displays all current connections"),
            Commands::Message => Some("This sends a message"),
            Commands::Test => None,
            Commands::Exit => Some("This exits the program"),
        }
    }

    /// The help menu listing every command.
    pub fn get_help_dialog() -> (res: String)
        ensures
            res@ == help_dialog(),
    {
        let cmds = Commands::all();
        let mut out = String::from_str("Possible commands:\n");
        let mut i: usize = 0;
        while i < cmds.len()
            invariant
                cmds@ == all_commands(),
                i <= cmds@.len(),
                out@ == "Possible commands:\n"@ + help_lines(cmds@.subrange(0, i as int)),
            decreases cmds@.len() - i,
        {
            let c = cmds[i];
            out.append("      ");
            match c.get_message() {
                Some(m) => out.append(m),
                None => out.append(c.name()),
            }
            out.append(" - ");
            match c.get_detailed_message() {
                Some(d) => out.append(d),
                None => out.append("No Help Message :("),
            }
            out.append("\n");
            assert(cmds@.subrange(0, i + 1).drop_last() =~= cmds@.subrange(0, i as int));
            i = i + 1;
        }
        assert(cmds@.subrange(0, cmds@.len() as int) =~= cmds@);
        out
    }

    /// The command named by a line the user typed, or `None` when it names
    /// no command.
    pub fn from_str(input: &str) -> (res: Option<Commands>)
        ensures
            res == command_named(input@),
    {
        let text = String::from_str(input);
        if text == String::from_str("Connect") {
            return Some(Commands::Connect);
        }
        if text == String::from_str("Update") {
            return Some(Commands::Update);
        }
        if text == String::from_str("List") {
            return Some(Commands::List);
        }
        if text == String::from_str("Message") {
            return Some(Commands::Message);
        }
        if text == String::from_str("Test") {
            return Some(Commands::Test);
        }
        if text == String::from_str("Exit") {
            return Some(Commands::Exit);
        }
        None
    }
}

/// Typing the name of a command selects that command.
pub proof fn lemma_command_name_selects(c: Commands)
    ensures
        command_named(name_of(c)) == Some(c),
{
    reveal_strlit("Connect");
    reveal_strlit("Update");
    reveal_strlit("List");
    reveal_strlit("Message");
    reveal_strlit("Test");
    reveal_strlit("Exit");
    assert("Connect"@[0] == 'C');
    assert("Update"@[0] == 'U');
    assert("List"@[0] == 'L');
    assert("Message"@[0] == 'M');
    assert("Test"@[0] == 'T');
    assert("Exit"@[0] == 'E');
}

/// Typing the word the help menu shows for a command selects that command:
/// the message a command is listed with is its name, and the parser accepts
/// it. (The test command has no message; the menu shows its name.)
pub proof fn lemma_menu_word_selects(c: Commands)
    ensures
        message_of(c) matches Some(m) ==> command_named(m) == Some(c) && name_of(c) == m,
        message_of(c) is None <==> c == Commands::Test,
{
    reveal_strlit("Connect");
    reveal_strlit("Update");
    reveal_strlit("List");
    reveal_strlit("Message");
    reveal_strlit("Test");
    reveal_strlit("Exit");
    assert("Test"@[0] == 'T');
    assert("Connect"@[0] == 'C');
    assert("Update"@[0] == 'U');
    assert("List"@[0] == 'L');
    assert("Message"@[0] == 'M');
    assert("Exit"@[0] == 'E');
}

} // verus!
