//! Custom module: shows what a shell command prints.  When the output is a
//! JSON object `{"text": "...", "fg": "..."}` those fields are used.
//!
//! Running the command and reading its JSON happen outside this library:
//! the caller trims the output with `trim_output`, tries to read it as the
//! JSON object, and hands both to `output_snapshot`.
use vstd::prelude::*;

use super::{region_of, region_setting, BarRegion, ModuleSnapshot, SnapshotView};
use crate::config::types::{opt_view, ModuleEntry};
use crate::text::{chars_of, string_of, trim, trim_chars};

verus! {

pub struct CustomModule {
    command: String,
    region: BarRegion,
    interval_ms: u64,
}

/// The fields of the JSON object a command may print.
pub struct CustomOutput {
    pub text: Option<String>,
    pub fg: Option<String>,
}

impl CustomModule {
    pub closed spec fn command(&self) -> Seq<char> {
        self.command@
    }

    pub closed spec fn region(&self) -> BarRegion {
        self.region
    }

    pub closed spec fn interval(&self) -> u64 {
        self.interval_ms
    }

    /// The command is the `command` extra setting, else the entry's
    /// `format`; ticks come at least 100 ms apart.
    pub fn new(entry: &ModuleEntry) -> (m: Self)
        ensures
            m.command() == (if entry@.extra.contains_key("command"@) {
                entry@.extra["command"@]
            } else {
                entry@.format
            }),
            m.region() == region_setting(entry@.extra, BarRegion::Right),
            m.interval() == (if entry.interval_ms >= 100 {
                entry.interval_ms
            } else {
                100
            }),
    {
        let command = match entry.extra.get("command") {
            Some(c) => c,
            None => entry.format.clone(),
        };
        let interval_ms = if entry.interval_ms >= 100 {
            entry.interval_ms
        } else {
            100
        };
        CustomModule { command, region: region_of(entry, BarRegion::Right), interval_ms }
    }

    /// The shell command to run.
    pub fn command_text(&self) -> (r: String)
        ensures
            r@ == self.command(),
    {
        self.command.clone()
    }

    /// Milliseconds between runs of the command.
    pub fn interval_ms(&self) -> (r: u64)
        ensures
            r == self.interval(),
    {
        self.interval_ms
    }

    /// Before the first run the module shows an empty default snapshot.
    pub fn initial(&self) -> (r: ModuleSnapshot)
        ensures
            r@ == (SnapshotView { text: Seq::empty(), fg: None, icon: None, region: BarRegion::Left }),
    {
        ModuleSnapshot::default()
    }

    /// The snapshot for one run of the command: its JSON fields when it
    /// printed the JSON object, its output as text otherwise; an empty
    /// default snapshot when no command is configured.
    pub fn output_snapshot(&self, output: String, json: Option<CustomOutput>) -> (r: ModuleSnapshot)
        ensures
            self.command().len() == 0 ==> r@ == (SnapshotView {
                text: Seq::empty(),
                fg: None,
                icon: None,
                region: BarRegion::Left,
            }),
            self.command().len() > 0 ==> r@ == match json {
                Some(j) => SnapshotView {
                    text: match j.text {
                        Some(t) => t@,
                        None => Seq::empty(),
                    },
                    fg: opt_view(j.fg),
                    icon: None,
                    region: self.region(),
                },
                None => SnapshotView { text: output@, fg: None, icon: None, region: self.region() },
            },
    {
        if self.command.as_str().is_empty() {
            return ModuleSnapshot::default();
        }
        match json {
            Some(j) => {
                let text = match j.text {
                    Some(t) => t,
                    None => String::new(),
                };
                ModuleSnapshot { text, fg: j.fg, icon: None, region: self.region }
            },
            None => ModuleSnapshot { text: output, fg: None, icon: None, region: self.region },
        }
    }
}

/// The command output with surrounding whitespace removed.
pub fn trim_output(raw: &str) -> (r: String)
    ensures
        r@ == trim(raw@),
{
    let v = chars_of(raw);
    let t = trim_chars(&v);
    string_of(&t)
}

} // verus!
