//! The top-level state machine of one invocation: resolve the active
//! command first, short-circuit on `--help` / `--version` anywhere in the
//! raw token list, otherwise bind, validate required children, and either
//! hand the argument map to the handler or fall back to help.
//!
//! Everything here is pure: the caller prints the returned text, runs the
//! returned map through the active command's handler, or terminates with a
//! non-zero status on a missing required child.

use vstd::prelude::*;
use vstd::string::*;

use crate::args_map::{get_arguments_map, spec_fold_bindings, ArgumentMap};
use crate::binder::{
    collect_arguments, first_missing_required, missing_required_child, retain_binder_tokens,
    spec_bindings, spec_retained,
};
use crate::cli_command::{
    search_for_help_flag, search_for_version_flag, spec_has_help_flag, spec_has_version_flag,
    spec_select, CliCommand,
};
use crate::help::{spec_help, spec_version_banner};

verus! {

/// What one invocation comes to; every variant is terminal.
#[derive(Debug)]
pub enum CliOutcome {
    /// Print the root's version banner, then the active command's help.
    ShowHelp { banner: String, help: String },
    /// Print the root's version banner alone.
    ShowVersion { banner: String },
    /// A required child of the active command was never named: report it
    /// and terminate with a non-zero status.
    MissingRequired { name: String },
    /// Hand the bound argument map to the active command's handler.
    RunAction { map: ArgumentMap },
    /// The active command has no handler: print its help.
    ShowCommandHelp { help: String },
}

/// The bindings that one invocation produces for its active command: the
/// raw tokens are filtered to those the binder retains, then classified
/// against the active command's options and positional slots.
pub open spec fn spec_dispatch_bindings<A>(tokens: Seq<Seq<char>>, active: CliCommand<A>) -> Seq<
    (Seq<char>, Option<Seq<char>>),
> {
    spec_bindings(spec_retained(tokens, active.name@), active.options@, active.arguments.deep_view())
}

/// Runs one invocation up to, but not including, its effects. The active
/// command is resolved unconditionally first; `--help` or `-h` anywhere in
/// the raw list short-circuits before any binding, as does `--version` or
/// `-V` after it; otherwise the retained tokens are bound, required
/// children are validated, and the outcome names the handler's map or the
/// fallback help.
pub fn dispatch<'a, A>(root: &'a CliCommand<A>, env_args: &Vec<String>) -> (r: (
    &'a CliCommand<A>,
    CliOutcome,
))
    ensures
        ({
            let tokens = env_args.deep_view();
            let active = spec_select(tokens, *root);
            let bound = spec_dispatch_bindings(tokens, active);
            &&& *r.0 == active
            &&& (match r.1 {
                CliOutcome::ShowHelp { banner, help } => {
                    &&& spec_has_help_flag(tokens)
                    &&& banner@ == spec_version_banner(*root)
                    &&& help@ == spec_help(active)
                },
                CliOutcome::ShowVersion { banner } => {
                    &&& !spec_has_help_flag(tokens)
                    &&& spec_has_version_flag(tokens)
                    &&& banner@ == spec_version_banner(*root)
                },
                CliOutcome::MissingRequired { name } => {
                    &&& !spec_has_help_flag(tokens)
                    &&& !spec_has_version_flag(tokens)
                    &&& first_missing_required(active.subcommands@, bound) == Some(name@)
                },
                CliOutcome::RunAction { map } => {
                    &&& !spec_has_help_flag(tokens)
                    &&& !spec_has_version_flag(tokens)
                    &&& first_missing_required(active.subcommands@, bound) is None
                    &&& active.action is Some
                    &&& map@ == spec_fold_bindings(bound)
                },
                CliOutcome::ShowCommandHelp { help } => {
                    &&& !spec_has_help_flag(tokens)
                    &&& !spec_has_version_flag(tokens)
                    &&& first_missing_required(active.subcommands@, bound) is None
                    &&& active.action is None
                    &&& help@ == spec_help(active)
                },
            })
        }),
{
    let command = crate::cli_command::select_command(env_args, root);

    if search_for_help_flag(env_args) {
        return (command, CliOutcome::ShowHelp { banner: root.get_version(), help: command.get_help() });
    }

    if search_for_version_flag(env_args) {
        return (command, CliOutcome::ShowVersion { banner: root.get_version() });
    }

    // drop the tokens that were consumed to select the subcommand path
    let retained = retain_binder_tokens(env_args, command.name.as_str());
    let bindings = collect_arguments(retained, command);

    if let Some(name) = missing_required_child(command, &bindings) {
        return (command, CliOutcome::MissingRequired { name });
    }

    if command.action.is_some() {
        let map = get_arguments_map(bindings);
        (command, CliOutcome::RunAction { map })
    } else {
        (command, CliOutcome::ShowCommandHelp { help: command.get_help() })
    }
}

} // verus!
