use vstd::prelude::*;

verus! {

/// What the translation tool was asked to do.
#[derive(Debug, Clone, PartialEq, Eq)]
pub enum Commands {
    /// Process the files that match `pattern`, if one is given.
    Process { pattern: Option<String> },
    /// Analyse one file.
    Analyze { file: String },
}

/// The lines that the tool reports for a command.
pub open spec fn report_lines(command: Option<Commands>, dry_run: bool) -> Seq<Seq<char>> {
    match command {
        Some(Commands::Process { pattern }) => {
            let head = seq!["Processing files..."@];
            let with_pattern = match pattern {
                Some(p) => head.push("Pattern: "@ + p@),
                None => head,
            };
            if dry_run {
                with_pattern.push("(Dry run mode)"@)
            } else {
                with_pattern
            }
        },
        Some(Commands::Analyze { file }) => seq!["Analyzing file: "@ + file@],
        None => seq!["No command specified"@],
    }
}

/// The lines to report for `command`; `dry_run` is noted for processing.
pub fn command_report(command: &Option<Commands>, dry_run: bool) -> (r: Vec<String>)
    ensures
        r@.map_values(|s: String| s@) == report_lines(*command, dry_run),
{
    let mut lines: Vec<String> = Vec::new();
    match command {
        Some(Commands::Process { pattern }) => {
            lines.push(String::from_str("Processing files..."));
            match pattern {
                Some(p) => {
                    let mut line = String::from_str("Pattern: ");
                    line.append(p.as_str());
                    lines.push(line);
                },
                None => {},
            }
            if dry_run {
                lines.push(String::from_str("(Dry run mode)"));
            }
        },
        Some(Commands::Analyze { file }) => {
            let mut line = String::from_str("Analyzing file: ");
            line.append(file.as_str());
            lines.push(line);
        },
        None => {
            lines.push(String::from_str("No command specified"));
        },
    }
    assert(lines@.map_values(|s: String| s@) =~= report_lines(*command, dry_run));
    lines
}

} // verus!
