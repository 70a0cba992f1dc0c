//! What every module offers, and the record of when each was refreshed.

use crate::data::error::SyncError;
use crate::data::text::text_views;
use crate::modules::refresh::{Refresh, RefreshView};
use vstd::prelude::*;

verus! {

/// The modules of the program.
#[derive(Clone, Copy, Debug, PartialEq, Eq, PartialOrd, Ord, Hash, Structural)]
pub enum ModuleType {
    Current,
}

/// When each module was last refreshed; `None` for a module that never was.
#[derive(Debug)]
pub struct ModuleInfo {
    pub current_mod_refresh: Option<String>,
}

/// What a module is asked to do.
#[derive(Clone, Copy, Debug, PartialEq, Eq, Structural)]
pub enum Command {
    /// List the cached courses.
    Courses,
    /// Show the student report of this course.
    Students(i32),
    /// Show the assignment report of this course.
    Grades(i32),
    /// The command names a course that is not configured.
    InvalidCourse,
    /// The command needs a course and names none.
    MissingCourse,
    /// The command is none of the module's.
    Unknown,
}

impl Command {
    /// Whether the module has dealt with the command. One that it has not
    /// dealt with is left to the shell.
    pub open spec fn is_handled(self) -> bool {
        self != Command::Unknown
    }

    /// Whether the module has dealt with the command.
    pub fn handled(&self) -> (handled: bool)
        ensures
            handled == self.is_handled(),
    {
        match self {
            Command::Unknown => false,
            _ => true,
        }
    }
}

/// The format of a refresh time: day, month and year, then hour and minute.
pub open spec fn stamp_format() -> Seq<char> {
    "%d/%m/%Y %H:%M"@
}

/// The local time of the machine, taken with `chrono::Local::now` and
/// written in the given format by `chrono::DateTime::format`. The text
/// depends on the clock, so nothing is claimed of it. The one format that is
/// accepted is a valid one: chrono fails on a format that it cannot read.
#[verifier::external_body]
fn local_time(format: &str) -> (stamp: String)
    requires
        format@ == stamp_format(),
{
    chrono::Local::now().format(format).to_string()
}

impl ModuleInfo {
    /// The record that a run starts with: the stored record where one could
    /// be read, else a record in which no module was ever refreshed. The
    /// flag says whether the record is new and is to be stored.
    pub fn new(stored: Option<ModuleInfo>) -> (start: (ModuleInfo, bool))
        ensures
            match stored {
                Some(info) => start.0 == info && !start.1,
                None => start.0.current_mod_refresh is None && start.1,
            },
    {
        match stored {
            Some(info) => (info, false),
            None => (ModuleInfo { current_mod_refresh: None }, true),
        }
    }

    /// The time of the last refresh of a module as a mathematical value.
    pub open spec fn refresh_of(&self, module: ModuleType) -> Option<Seq<char>> {
        match module {
            ModuleType::Current => match self.current_mod_refresh {
                Some(stamp) => Some(stamp@),
                None => None,
            },
        }
    }

    /// Records that a module was refreshed at the given time.
    pub fn mark_refreshed(&mut self, module: &ModuleType, stamp: String)
        ensures
            final(self).refresh_of(*module) == Some(stamp@),
            forall|other: ModuleType|
                other != *module ==> final(self).refresh_of(other) == old(self).refresh_of(other),
    {
        match module {
            ModuleType::Current => {
                self.current_mod_refresh = Some(stamp);
            },
        }
    }

    /// Records that a module was refreshed now. The record is then to be
    /// stored.
    pub fn update_refresh(&mut self, module: &ModuleType)
        ensures
            final(self).refresh_of(*module) is Some,
            forall|other: ModuleType|
                other != *module ==> final(self).refresh_of(other) == old(self).refresh_of(other),
    {
        let stamp = local_time("%d/%m/%Y %H:%M");
        self.mark_refreshed(module, stamp);
    }

    /// Takes note of how a refresh of a module ended. A refresh that failed
    /// has not taken place: the record stays as it is. One that succeeded is
    /// recorded with the time of now. The result says whether the record
    /// has changed and is to be stored.
    pub fn refresh_ended(&mut self, module: &ModuleType, result: &Result<(), SyncError>) -> (changed:
        bool)
        ensures
            changed == (result is Ok),
            result is Err ==> *final(self) == *old(self),
            result is Ok ==> final(self).refresh_of(*module) is Some,
            forall|other: ModuleType|
                other != *module ==> final(self).refresh_of(other) == old(self).refresh_of(other),
    {
        match result {
            Ok(_) => {
                self.update_refresh(module);
                true
            },
            Err(_) => false,
        }
    }

    /// When a module was last refreshed.
    pub fn get_module_refresh(&self, module: &ModuleType) -> (stamp: Option<String>)
        ensures
            match stamp {
                Some(s) => self.refresh_of(*module) == Some(s@),
                None => self.refresh_of(*module) is None,
            },
    {
        match module {
            ModuleType::Current => match &self.current_mod_refresh {
                Some(stamp) => Some(stamp.clone()),
                None => None,
            },
        }
    }
}

/// What a module offers to the shell.
pub trait ModuleTrait {
    /// The name of the module.
    spec fn name(&self) -> Seq<char>;

    /// The command that the given words ask for.
    spec fn command(&self, words: Seq<Seq<char>>) -> Command;

    /// The courses that a refresh of the module loads.
    spec fn course_ids(&self) -> Seq<i32>;

    /// The lines that explain the commands of the module.
    spec fn help_lines(&self) -> Seq<Seq<char>>;

    /// The name of the module.
    fn get_name(&self) -> (name: String)
        ensures
            name@ == self.name(),
    ;

    /// Reads a command, word by word.
    fn process_cmd(&self, cmd: &Vec<String>) -> (command: Command)
        ensures
            command == self.command(text_views(cmd@)),
    ;

    /// Starts a refresh of the module.
    fn refresh(&self) -> (refresh: Refresh)
        ensures
            refresh@ == RefreshView::start(self.course_ids()),
    ;

    /// The lines that explain the commands of the module.
    fn help(&self) -> (lines: Vec<String>)
        ensures
            text_views(lines@) == self.help_lines(),
    ;
}

} // verus!
