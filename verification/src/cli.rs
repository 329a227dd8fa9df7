//! The command line as data: the output formats, the subcommands and their options.
use vstd::prelude::*;

verus! {

#[derive(Clone, Copy, Debug, PartialEq, Eq, Structural)]
pub enum OutputFormat {
    Auto,
    Human,
    Json,
    Yaml,
    Table,
    Csv,
    Tsv,
}

#[derive(Clone, Copy, Debug, PartialEq, Eq, Structural)]
pub enum RecurrenceScope {
    This,
    Future,
}

/// The shells that completion scripts are generated for.
#[derive(Clone, Copy, Debug, PartialEq, Eq, Structural)]
pub enum Shell {
    Bash,
    Elvish,
    Fish,
    PowerShell,
    Zsh,
}

/// `auto` is human output on a terminal and JSON otherwise; other formats stand as they are.
pub open spec fn resolved_format(f: OutputFormat, stdout_is_terminal: bool) -> OutputFormat {
    match f {
        OutputFormat::Auto => if stdout_is_terminal {
            OutputFormat::Human
        } else {
            OutputFormat::Json
        },
        other => other,
    }
}

impl OutputFormat {
    /// The format that is written, given whether standard output is a terminal.
    pub fn resolve_for_stdout(self, stdout_is_terminal: bool) -> (r: Self)
        ensures
            r == resolved_format(self, stdout_is_terminal),
            r != OutputFormat::Auto,
    {
        match self {
            Self::Auto => {
                if stdout_is_terminal {
                    Self::Human
                } else {
                    Self::Json
                }
            },
            other => other,
        }
    }
}

pub struct Cli {
    pub command: Commands,
    pub output: OutputFormat,
    pub verbose: bool,
    pub fields: Option<String>,
    pub no_header: bool,
    pub no_color: bool,
}

#[allow(inconsistent_fields)]
pub enum Commands {
    Calendars,
    Agenda { calendar: Option<String> },
    Events {
        from: Option<String>,
        to: Option<String>,
        calendar: Option<String>,
        sort: Option<String>,
        limit: Option<usize>,
        after: Option<String>,
        before: Option<String>,
    },
    Today {
        calendar: Option<String>,
        sort: Option<String>,
        limit: Option<usize>,
        after: Option<String>,
        before: Option<String>,
    },
    Upcoming {
        days: u32,
        calendar: Option<String>,
        sort: Option<String>,
        limit: Option<usize>,
        after: Option<String>,
        before: Option<String>,
    },
    Add {
        title: String,
        start: String,
        end: String,
        calendar: Option<String>,
        location: Option<String>,
        url: Option<String>,
        notes: Option<String>,
        all_day: bool,
        repeat: Option<String>,
        repeat_count: Option<u32>,
        repeat_interval: Option<u32>,
        alert: Vec<i64>,
        check_conflicts: bool,
    },
    Free {
        from: Option<String>,
        to: Option<String>,
        calendar: Option<String>,
        duration: u32,
        after: Option<String>,
        before: Option<String>,
        limit: Option<usize>,
    },
    Conflicts {
        start: String,
        end: String,
        all_day: bool,
        calendar: Option<String>,
        sort: Option<String>,
        limit: Option<usize>,
    },
    Update {
        event_id: Option<String>,
        query: Option<String>,
        exact: bool,
        interactive: bool,
        in_calendar: Option<String>,
        from: Option<String>,
        to: Option<String>,
        title: Option<String>,
        start: Option<String>,
        end: Option<String>,
        location: Option<String>,
        clear_location: bool,
        url: Option<String>,
        clear_url: bool,
        notes: Option<String>,
        clear_notes: bool,
        alert: Vec<i64>,
        clear_alerts: bool,
        calendar: Option<String>,
        all_day: Option<bool>,
        scope: Option<RecurrenceScope>,
    },
    Duplicate {
        event_id: Option<String>,
        query: Option<String>,
        exact: bool,
        interactive: bool,
        in_calendar: Option<String>,
        from: Option<String>,
        to: Option<String>,
        title: Option<String>,
        start: Option<String>,
        end: Option<String>,
        calendar: Option<String>,
        keep_recurrence: bool,
    },
    Delete {
        event_id: Option<String>,
        query: Option<String>,
        exact: bool,
        interactive: bool,
        in_calendar: Option<String>,
        from: Option<String>,
        to: Option<String>,
        dry_run: bool,
        scope: Option<RecurrenceScope>,
    },
    Show {
        event_id: Option<String>,
        query: Option<String>,
        exact: bool,
        interactive: bool,
        in_calendar: Option<String>,
        from: Option<String>,
        to: Option<String>,
    },
    Search {
        query: String,
        exact: bool,
        calendar: Option<String>,
        from: Option<String>,
        to: Option<String>,
        sort: Option<String>,
        limit: Option<usize>,
        after: Option<String>,
        before: Option<String>,
    },
    Next { calendar: Option<String> },
    Doctor,
    Template { command: TemplateCommand },
    Undo,
    Completions { shell: Shell },
}

pub enum TemplateCommand {
    List,
    Show { name: String },
    Save {
        name: String,
        force: bool,
        event_id: Option<String>,
        query: Option<String>,
        exact: bool,
        interactive: bool,
        in_calendar: Option<String>,
        from: Option<String>,
        to: Option<String>,
    },
    Delete { name: String },
    Add {
        name: String,
        title: Option<String>,
        start: String,
        end: Option<String>,
        calendar: Option<String>,
        drop_recurrence: bool,
    },
}

} // verus!
