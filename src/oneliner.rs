//! The one-line mode: from command-line values to a configured run, and
//! from every failure to an exit status and a message.

use vstd::prelude::*;
use crate::config::{
    inject_spec, parse_error_text, parse_spec, ParseError, ParseErrorKind, RulesetModel,
    RunConfiguration,
};
use crate::text::same_text;

verus! {

/// The command-line values that the one-line mode reads.
#[derive(Debug)]
pub struct ChiselFlags {
    /// `util.debugging`: `true` or `false`.
    pub debugging: Option<String>,
    /// `oneliner.modules`: the comma-separated module names.
    pub modules: Option<String>,
    /// `oneliner.modules.options`: the comma-separated option assignments.
    pub module_options: Option<String>,
    /// `oneliner.file`: the input path.
    pub file: Option<String>,
    /// `oneliner.output`: the output path; standard output when absent.
    pub output: Option<String>,
    /// `output.mode`: `bin`, `wat` or `hex`.
    pub mode: Option<String>,
}

/// Why a run ends without success.
#[derive(Debug)]
pub enum Failure {
    /// `util.debugging` is neither `true` nor `false`.
    BadDebugLevel,
    /// No module list was given.
    NoModules,
    /// No input file was given.
    NoFile,
    /// The module list or the options are malformed.
    BadSpec(ParseError),
    /// The engine failed.
    Engine { cause: String, partial: String },
    /// The output could not be written.
    Write(String),
}

/// The model of a failure.
pub enum FailureModel {
    BadDebugLevel,
    NoModules,
    NoFile,
    BadSpec(ParseErrorKind, Seq<char>),
    Engine(Seq<char>, Seq<char>),
    Write(Seq<char>),
}

impl View for Failure {
    type V = FailureModel;

    open spec fn view(&self) -> FailureModel {
        match self {
            Failure::BadDebugLevel => FailureModel::BadDebugLevel,
            Failure::NoModules => FailureModel::NoModules,
            Failure::NoFile => FailureModel::NoFile,
            Failure::BadSpec(e) => FailureModel::BadSpec(e.kind, e.token@),
            Failure::Engine { cause, partial } => FailureModel::Engine(cause@, partial@),
            Failure::Write(c) => FailureModel::Write(c@),
        }
    }
}

/// The message that reports a failure.
pub open spec fn failure_message(f: FailureModel) -> Seq<char> {
    match f {
        FailureModel::BadDebugLevel => "util.debugging must be set 'true' or 'false'"@,
        FailureModel::NoModules => "no modules specified"@,
        FailureModel::NoFile => "No file specified"@,
        FailureModel::BadSpec(k, t) => "Failed to load configuration: "@ + parse_error_text(k, t),
        FailureModel::Engine(cause, _) => "runtime error: "@ + cause,
        FailureModel::Write(cause) => "failed to write output to file: "@ + cause,
    }
}

impl Failure {
    /// The exit status of a failed run: 1, whatever the failure.
    pub fn exit_code(&self) -> (r: i32)
        ensures
            r == 1,
    {
        1
    }

    /// The message that reports the failure.
    pub fn message(&self) -> (r: String)
        ensures
            r@ == failure_message(self@),
    {
        match self {
            Failure::BadDebugLevel => String::from_str("util.debugging must be set 'true' or 'false'"),
            Failure::NoModules => String::from_str("no modules specified"),
            Failure::NoFile => String::from_str("No file specified"),
            Failure::BadSpec(e) => {
                let d = e.describe();
                String::from_str("Failed to load configuration: ").concat(d.as_str())
            },
            Failure::Engine { cause, .. } => String::from_str("runtime error: ").concat(
                cause.as_str(),
            ),
            Failure::Write(cause) => String::from_str("failed to write output to file: ").concat(
                cause.as_str(),
            ),
        }
    }
}

/// A configured run: the log level and the configuration for the engine.
#[derive(Debug)]
pub struct Setup {
    pub log_level: i32,
    pub config: RunConfiguration,
}

/// The model of an optional string.
pub open spec fn opt_view(o: Option<String>) -> Option<Seq<char>> {
    match o {
        Some(s) => Some(s@),
        None => None,
    }
}

/// The log level that `util.debugging` selects: 1 for `true`, 0 for
/// `false`, none for anything else.
pub open spec fn log_level_of(d: Option<Seq<char>>) -> Option<i32> {
    match d {
        Some(s) => if s == "true"@ {
            Some(1i32)
        } else if s == "false"@ {
            Some(0i32)
        } else {
            None
        },
        None => None,
    }
}

/// The output target when none is given: standard output.
pub open spec fn default_output() -> Seq<char> {
    "/dev/stdout"@
}

/// The outcome of the one-line mode on its command-line values, in the
/// order in which they are checked: the debug switch, the module list, the
/// input file, then the parse of modules and options. On success the first
/// ruleset carries the input path and the output target.
pub open spec fn oneliner_spec(
    debugging: Option<Seq<char>>,
    modules: Option<Seq<char>>,
    module_options: Option<Seq<char>>,
    file: Option<Seq<char>>,
    output: Option<Seq<char>>,
) -> Result<(i32, Seq<RulesetModel>), FailureModel> {
    match log_level_of(debugging) {
        None => Err(FailureModel::BadDebugLevel),
        Some(level) => match modules {
            None => Err(FailureModel::NoModules),
            Some(m) => match file {
                None => Err(FailureModel::NoFile),
                Some(f) => {
                    let opts = match module_options {
                        Some(o) => o,
                        None => Seq::empty(),
                    };
                    let out = match output {
                        Some(o) => o,
                        None => default_output(),
                    };
                    match parse_spec(m, opts) {
                        Err((k, t)) => Err(FailureModel::BadSpec(k, t)),
                        Ok(c) => Ok((level, inject_spec(c, f, out))),
                    }
                },
            },
        },
    }
}

/// The model of the one-line mode's result.
pub open spec fn setup_view(r: Result<Setup, Failure>) -> Result<
    (i32, Seq<RulesetModel>),
    FailureModel,
> {
    match r {
        Ok(s) => Ok((s.log_level, s.config@)),
        Err(f) => Err(f@),
    }
}

/// Without a module list a run fails before any configuration is built:
/// with a valid debug switch the failure is the missing module list.
pub proof fn lemma_no_modules_stops_run(
    debugging: Option<Seq<char>>,
    module_options: Option<Seq<char>>,
    file: Option<Seq<char>>,
    output: Option<Seq<char>>,
)
    ensures
        oneliner_spec(debugging, None, module_options, file, output) is Err,
        log_level_of(debugging) is Some ==> oneliner_spec(
            debugging,
            None,
            module_options,
            file,
            output,
        ) == Err::<(i32, Seq<RulesetModel>), FailureModel>(FailureModel::NoModules),
{
}

/// With a module list but no input file a run fails before any
/// configuration is built: with a valid debug switch the failure is the
/// missing input file, whatever the module list holds.
pub proof fn lemma_no_file_stops_run(
    debugging: Option<Seq<char>>,
    modules: Seq<char>,
    module_options: Option<Seq<char>>,
    output: Option<Seq<char>>,
)
    ensures
        oneliner_spec(debugging, Some(modules), module_options, None, output) is Err,
        log_level_of(debugging) is Some ==> oneliner_spec(
            debugging,
            Some(modules),
            module_options,
            None,
            output,
        ) == Err::<(i32, Seq<RulesetModel>), FailureModel>(FailureModel::NoFile),
{
}

/// Reads the command-line values of the one-line mode into a configured
/// run, or the failure that ends it before the engine starts.
pub fn chisel_oneliner(flags: ChiselFlags) -> (r: Result<Setup, Failure>)
    ensures
        setup_view(r) == oneliner_spec(
            opt_view(flags.debugging),
            opt_view(flags.modules),
            opt_view(flags.module_options),
            opt_view(flags.file),
            opt_view(flags.output),
        ),
{
    let log_level: i32 = match &flags.debugging {
        Some(d) => {
            if same_text(d.as_str(), "true") {
                1
            } else if same_text(d.as_str(), "false") {
                0
            } else {
                return Err(Failure::BadDebugLevel);
            }
        },
        None => return Err(Failure::BadDebugLevel),
    };
    let modules = match flags.modules {
        Some(m) => m,
        None => return Err(Failure::NoModules),
    };
    let file = match flags.file {
        Some(f) => f,
        None => return Err(Failure::NoFile),
    };
    let options = match flags.module_options {
        Some(o) => o,
        None => String::new(),
    };
    let output = match flags.output {
        Some(o) => o,
        None => String::from_str("/dev/stdout"),
    };
    match RunConfiguration::from_args(modules.as_str(), options.as_str()) {
        Err(e) => Err(Failure::BadSpec(e)),
        Ok(c) => {
            let mut config = c;
            config.inject_bindings(file, output);
            Ok(Setup { log_level, config })
        },
    }
}

/// The model of a write report.
pub open spec fn report_view(r: Result<String, Failure>) -> Result<Seq<char>, FailureModel> {
    match r {
        Ok(s) => Ok(s@),
        Err(f) => Err(f@),
    }
}

/// The notice for a successful write, or the failure of a write that did
/// not succeed. `Ok(true)` means bytes were written, `Ok(false)` that the
/// target already held them.
pub fn write_report(r: Result<bool, String>) -> (out: Result<String, Failure>)
    ensures
        report_view(out) == match r {
            Ok(true) => Ok("Successfully wrote output to file."@),
            Ok(false) => Ok("No changes to write."@),
            Err(e) => Err(FailureModel::Write(e@)),
        },
{
    match r {
        Ok(true) => Ok(String::from_str("Successfully wrote output to file.")),
        Ok(false) => Ok(String::from_str("No changes to write.")),
        Err(e) => Err(Failure::Write(e)),
    }
}

} // verus!
