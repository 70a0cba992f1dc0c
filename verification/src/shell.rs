//! The commands of the shell: what is left to it once the selected module
//! has passed a command on.

use crate::data::error::SyncError;
use crate::data::text::{text_equal, text_views};
use crate::modules::module::{ModuleInfo, ModuleType};
use vstd::prelude::*;
use vstd::string::StringExecFns;

verus! {

/// What the command `module` asks for.
#[derive(Clone, Copy, Debug, PartialEq, Eq, Structural)]
pub enum ModuleChoice {
    /// Select this module.
    Switch(ModuleType),
    /// The command names a module that does not exist.
    Invalid,
    /// List the modules with the time of their last refresh.
    List,
}

/// A command of the shell.
#[derive(Clone, Copy, Debug, PartialEq, Eq, Structural)]
pub enum ShellCommand {
    /// Refresh the selected module.
    Refresh,
    /// Explain the commands.
    Help,
    /// Leave the program.
    Exit,
    /// Select a module or list the modules.
    Module(ModuleChoice),
    /// The first word is no command.
    Invalid,
    /// The line is empty.
    Nothing,
}

/// What the command `module` asks for: the module that its second word
/// names, or the list of modules where it has no second word.
pub open spec fn module_choice(words: Seq<Seq<char>>) -> ModuleChoice {
    if words.len() < 2 {
        ModuleChoice::List
    } else if words[1] == "current"@ {
        ModuleChoice::Switch(ModuleType::Current)
    } else {
        ModuleChoice::Invalid
    }
}

/// The command of the shell that the words stand for.
pub open spec fn shell_command(words: Seq<Seq<char>>) -> ShellCommand {
    if words.len() == 0 {
        ShellCommand::Nothing
    } else if words[0] == "refresh"@ {
        ShellCommand::Refresh
    } else if words[0] == "help"@ {
        ShellCommand::Help
    } else if words[0] == "exit"@ {
        ShellCommand::Exit
    } else if words[0] == "module"@ {
        ShellCommand::Module(module_choice(words))
    } else {
        ShellCommand::Invalid
    }
}

/// The line that shows when a module was last refreshed.
pub open spec fn refresh_line(name: Seq<char>, stamp: Option<Seq<char>>) -> Seq<char> {
    name + " - "@ + match stamp {
        Some(s) => s,
        None => "Not Refreshed"@,
    }
}

/// The state of the shell: when each module was refreshed, and which module
/// is selected.
#[derive(Debug)]
pub struct Shell {
    pub module_info: ModuleInfo,
    pub selected: ModuleType,
}

impl Shell {
    /// A shell with the given record of refreshes. The module of the
    /// current courses is selected.
    pub fn new(module_info: ModuleInfo) -> (shell: Self)
        ensures
            shell.module_info == module_info,
            shell.selected == ModuleType::Current,
    {
        Shell { module_info, selected: ModuleType::Current }
    }

    /// The prompt for the module with the given name.
    pub fn prompt(name: &str) -> (prompt: String)
        ensures
            prompt@ == name@ + "> "@,
    {
        let mut prompt = String::from_str(name);
        prompt.append("> ");
        prompt
    }

    /// Reads a command that the selected module has passed on.
    pub fn interpret(cmd: &Vec<String>) -> (command: ShellCommand)
        ensures
            command == shell_command(text_views(cmd@)),
    {
        if cmd.len() == 0 {
            return ShellCommand::Nothing;
        }
        let first = cmd[0].as_str();
        if text_equal(first, "refresh") {
            ShellCommand::Refresh
        } else if text_equal(first, "help") {
            ShellCommand::Help
        } else if text_equal(first, "exit") {
            ShellCommand::Exit
        } else if text_equal(first, "module") {
            ShellCommand::Module(Shell::module_cmd(cmd))
        } else {
            ShellCommand::Invalid
        }
    }

    /// Reads the command `module`.
    pub fn module_cmd(cmd: &Vec<String>) -> (choice: ModuleChoice)
        ensures
            choice == module_choice(text_views(cmd@)),
    {
        if cmd.len() < 2 {
            ModuleChoice::List
        } else if text_equal(cmd[1].as_str(), "current") {
            ModuleChoice::Switch(ModuleType::Current)
        } else {
            ModuleChoice::Invalid
        }
    }

    /// Selects a module.
    pub fn select(&mut self, module: ModuleType)
        ensures
            final(self).selected == module,
            final(self).module_info == old(self).module_info,
    {
        self.selected = module;
    }

    /// Takes note of how a refresh of the selected module ended: a refresh
    /// that failed leaves the record of refreshes as it is. The result says
    /// whether the record has changed and is to be stored.
    pub fn refresh_ended(&mut self, result: &Result<(), SyncError>) -> (changed: bool)
        ensures
            changed == (result is Ok),
            final(self).selected == old(self).selected,
            result is Err ==> final(self).module_info == old(self).module_info,
            result is Ok ==> final(self).module_info.refresh_of(old(self).selected) is Some,
    {
        let selected = self.selected;
        self.module_info.refresh_ended(&selected, result)
    }

    /// The line that shows when the module with the given name was last
    /// refreshed.
    pub fn module_line(&self, name: &str, module: &ModuleType) -> (line: String)
        ensures
            line@ == refresh_line(name@, self.module_info.refresh_of(*module)),
    {
        let mut line = String::from_str(name);
        line.append(" - ");
        match self.module_info.get_module_refresh(module) {
            Some(stamp) => {
                line.append(stamp.as_str());
            },
            None => {
                line.append("Not Refreshed");
            },
        }
        line
    }

    /// The lines that explain the commands of the shell.
    pub fn help() -> (lines: Vec<String>)
        ensures
            text_views(lines@) == seq![
                "refresh : reload data for current module"@,
                "help : show module specific and general command"@,
                "exit : close the program"@,
            ],
    {
        let mut lines: Vec<String> = Vec::new();
        lines.push(String::from_str("refresh : reload data for current module"));
        lines.push(String::from_str("help : show module specific and general command"));
        lines.push(String::from_str("exit : close the program"));
        lines
    }
}

} // verus!
