use vstd::prelude::*;
use crate::output::OutputFormat;
use crate::sorting::{PositionSort, SortOrder};

verus! {

/// A window command with its already-parsed arguments.
#[derive(Debug)]
pub enum SubCommand {
    WindowsGet {
        pid: Option<String>,
        name: Option<String>,
        title: Option<String>,
        format: OutputFormat,
        sort_pid: SortOrder,
        sort_position: PositionSort,
    },
    WindowsMinimize {
        pid: Option<String>,
        name: Option<String>,
        title: Option<String>,
        all: bool,
        index: Option<String>,
        sort_position: PositionSort,
    },
    WindowsMaximize {
        pid: Option<String>,
        name: Option<String>,
        title: Option<String>,
        all: bool,
        index: Option<String>,
        sort_position: PositionSort,
    },
    WindowsRestore {
        pid: Option<String>,
        name: Option<String>,
        title: Option<String>,
        all: bool,
        index: Option<String>,
        sort_position: PositionSort,
    },
    WindowsPositionSet {
        pid: Option<String>,
        name: Option<String>,
        title: Option<String>,
        all: bool,
        position: Option<String>,
        index: Option<String>,
        layout: Option<String>,
        x_start: Option<String>,
        y_start: Option<String>,
        x_step: Option<String>,
        y_step: Option<String>,
        sort_position: PositionSort,
    },
    WindowsAlwaysOnTop {
        pid: Option<String>,
        name: Option<String>,
        title: Option<String>,
        all: bool,
        toggle: bool,
        off: bool,
    },
    WindowsTransparency {
        pid: Option<String>,
        name: Option<String>,
        title: Option<String>,
        all: bool,
        index: Option<String>,
        level: u8,
        reset: bool,
        sort_position: PositionSort,
    },
    WindowsResize {
        pid: Option<String>,
        name: Option<String>,
        title: Option<String>,
        all: bool,
        index: Option<String>,
        width: Option<String>,
        height: Option<String>,
        size: Option<String>,
        keep_position: bool,
        center: bool,
        sort_position: PositionSort,
    },
}

/// The whole command line: process-list filters, output options, and the
/// window command if one was given.
#[derive(Debug)]
pub struct CliConfig {
    pub pid_filter: Option<String>,
    pub name_filter: Option<String>,
    pub title_filter: Option<String>,
    pub has_window_filter: bool,
    pub no_window_filter: bool,
    pub format: OutputFormat,
    pub verbose: bool,
    pub subcommand: Option<SubCommand>,
}

} // verus!
