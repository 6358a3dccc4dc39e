//! The declarative command tree: commands, options, the fluent builder, and
//! the resolver that walks raw tokens to select the active command.
//!
//! A command is a node of an n-ary tree. The resolver scans the token list
//! left to right, descending one level whenever a non-dash token names a
//! direct child (by name or alias); unknown tokens are skipped silently and
//! the deepest node reached is the active command.

use vstd::prelude::*;
use vstd::string::*;

use crate::text::{is_dash_token, spec_is_dash, str_eq};

verus! {

/// A named option of one command: a long key, an optional one-token short
/// key, a flag bit (a flag binds the value "true" and never consumes the
/// following token) and an optional description for help text.
#[derive(Debug, Clone)]
pub struct CliCommandOption {
    pub name: String,
    pub short_name: Option<String>,
    pub is_flag: bool,
    pub description: Option<String>,
}

/// One node of the command tree. `arguments` are the declared positional
/// slot names; `subcommands` are owned children; `action` is the handler
/// payload, carried opaquely so that a host program may store any callable
/// or identifier it likes.
#[derive(Debug)]
pub struct CliCommand<A> {
    pub name: String,
    pub aliases: Vec<String>,
    pub description: Option<String>,
    pub version: Option<String>,
    pub optional: bool,
    pub arguments: Vec<String>,
    pub subcommands: Vec<CliCommand<A>>,
    pub options: Vec<CliCommandOption>,
    pub action: Option<A>,
}

/// Accumulates the fields of a command and produces it by `build`.
/// Construction never fails: no cross-field validation happens here, and a
/// malformed tree only shows up as surprising resolution later.
pub struct CliCommandBuilder<A> {
    pub name: String,
    pub aliases: Vec<String>,
    pub description: Option<String>,
    pub version: Option<String>,
    pub optional: bool,
    pub arguments: Vec<String>,
    pub subcommands: Vec<CliCommand<A>>,
    pub options: Vec<CliCommandOption>,
    pub action: Option<A>,
}

/// The command a builder produces: every accumulated field, moved across.
pub open spec fn spec_build<A>(b: CliCommandBuilder<A>) -> CliCommand<A> {
    CliCommand {
        name: b.name,
        aliases: b.aliases,
        description: b.description,
        version: b.version,
        optional: b.optional,
        arguments: b.arguments,
        subcommands: b.subcommands,
        options: b.options,
        action: b.action,
    }
}

impl<A> Default for CliCommandBuilder<A> {
    /// An empty builder: no name, no aliases, nothing declared.
    fn default() -> (r: Self)
        ensures
            r.name@ == Seq::<char>::empty(),
            r.aliases@ == Seq::<String>::empty(),
            r.description is None,
            r.version is None,
            !r.optional,
            r.arguments@ == Seq::<String>::empty(),
            r.subcommands@ == Seq::<CliCommand<A>>::empty(),
            r.options@ == Seq::<CliCommandOption>::empty(),
            r.action is None,
    {
        CliCommandBuilder {
            name: String::new(),
            aliases: Vec::new(),
            description: None,
            version: None,
            optional: false,
            arguments: Vec::new(),
            subcommands: Vec::new(),
            options: Vec::new(),
            action: None,
        }
    }
}

impl<A> CliCommandBuilder<A> {
    pub fn set_name(self, name: &str) -> (r: Self)
        ensures
            r.name@ == name@,
            r.aliases == self.aliases,
            r.description == self.description,
            r.version == self.version,
            r.optional == self.optional,
            r.arguments == self.arguments,
            r.subcommands == self.subcommands,
            r.options == self.options,
            r.action == self.action,
    {
        CliCommandBuilder { name: name.to_owned(), ..self }
    }

    pub fn add_alias(self, alias: &str) -> (r: Self)
        ensures
            r.aliases.deep_view() == self.aliases.deep_view().push(alias@),
            r.name == self.name,
            r.description == self.description,
            r.version == self.version,
            r.optional == self.optional,
            r.arguments == self.arguments,
            r.subcommands == self.subcommands,
            r.options == self.options,
            r.action == self.action,
    {
        let mut aliases = self.aliases;
        aliases.push(alias.to_owned());
        proof {
            assert(aliases.deep_view() =~= self.aliases.deep_view().push(alias@));
        }
        CliCommandBuilder { aliases, ..self }
    }

    pub fn set_description(self, description: &str) -> (r: Self)
        ensures
            r.description matches Some(d) && d@ == description@,
            r.name == self.name,
            r.aliases == self.aliases,
            r.version == self.version,
            r.optional == self.optional,
            r.arguments == self.arguments,
            r.subcommands == self.subcommands,
            r.options == self.options,
            r.action == self.action,
    {
        CliCommandBuilder { description: Some(description.to_owned()), ..self }
    }

    pub fn set_version(self, version: &str) -> (r: Self)
        ensures
            r.version matches Some(v) && v@ == version@,
            r.name == self.name,
            r.aliases == self.aliases,
            r.description == self.description,
            r.optional == self.optional,
            r.arguments == self.arguments,
            r.subcommands == self.subcommands,
            r.options == self.options,
            r.action == self.action,
    {
        CliCommandBuilder { version: Some(version.to_owned()), ..self }
    }

    /// Marks the command as not required for validation and listed in
    /// brackets by the help renderer.
    pub fn set_optional(self, optional: bool) -> (r: Self)
        ensures
            r.optional == optional,
            r.name == self.name,
            r.aliases == self.aliases,
            r.description == self.description,
            r.version == self.version,
            r.arguments == self.arguments,
            r.subcommands == self.subcommands,
            r.options == self.options,
            r.action == self.action,
    {
        CliCommandBuilder { optional, ..self }
    }

    /// Declares the next positional slot name.
    pub fn add_argument(self, argument: &str) -> (r: Self)
        ensures
            r.arguments.deep_view() == self.arguments.deep_view().push(argument@),
            r.name == self.name,
            r.aliases == self.aliases,
            r.description == self.description,
            r.version == self.version,
            r.optional == self.optional,
            r.subcommands == self.subcommands,
            r.options == self.options,
            r.action == self.action,
    {
        let mut arguments = self.arguments;
        arguments.push(argument.to_owned());
        proof {
            assert(arguments.deep_view() =~= self.arguments.deep_view().push(argument@));
        }
        CliCommandBuilder { arguments, ..self }
    }

    pub fn add_subcommand(self, subcommand: CliCommand<A>) -> (r: Self)
        ensures
            r.subcommands@ == self.subcommands@.push(subcommand),
            r.name == self.name,
            r.aliases == self.aliases,
            r.description == self.description,
            r.version == self.version,
            r.optional == self.optional,
            r.arguments == self.arguments,
            r.options == self.options,
            r.action == self.action,
    {
        let mut subcommands = self.subcommands;
        subcommands.push(subcommand);
        CliCommandBuilder { subcommands, ..self }
    }

    pub fn add_option(self, option: CliCommandOption) -> (r: Self)
        ensures
            r.options@ == self.options@.push(option),
            r.name == self.name,
            r.aliases == self.aliases,
            r.description == self.description,
            r.version == self.version,
            r.optional == self.optional,
            r.arguments == self.arguments,
            r.subcommands == self.subcommands,
            r.action == self.action,
    {
        let mut options = self.options;
        options.push(option);
        CliCommandBuilder { options, ..self }
    }

    pub fn set_action(self, action: A) -> (r: Self)
        ensures
            r.action == Some(action),
            r.name == self.name,
            r.aliases == self.aliases,
            r.description == self.description,
            r.version == self.version,
            r.optional == self.optional,
            r.arguments == self.arguments,
            r.subcommands == self.subcommands,
            r.options == self.options,
    {
        CliCommandBuilder { action: Some(action), ..self }
    }

    /// Produces the immutable command. Never fails.
    pub fn build(self) -> (r: CliCommand<A>)
        ensures
            r == spec_build(self),
    {
        CliCommand {
            name: self.name,
            aliases: self.aliases,
            description: self.description,
            version: self.version,
            optional: self.optional,
            arguments: self.arguments,
            subcommands: self.subcommands,
            options: self.options,
            action: self.action,
        }
    }
}

/// Whether `tok` names the child `c`, either by name or by one of its
/// aliases.
pub open spec fn child_matches<A>(c: CliCommand<A>, tok: Seq<char>) -> bool {
    c.name@ == tok || c.aliases.deep_view().contains(tok)
}

/// The first direct child of the list that `tok` names, if any.
pub open spec fn find_child<A>(children: Seq<CliCommand<A>>, tok: Seq<char>) -> Option<
    CliCommand<A>,
>
    decreases children.len(),
{
    if children.len() == 0 {
        None
    } else if child_matches(children[0], tok) {
        Some(children[0])
    } else {
        find_child(children.skip(1), tok)
    }
}

/// Whether `v` holds a string whose characters are `s`.
pub fn contains_string(v: &Vec<String>, s: &str) -> (r: bool)
    ensures
        r == v.deep_view().contains(s@),
{
    let n = v.len();
    let mut i: usize = 0;
    while i < n
        invariant
            n == v.len(),
            i <= n,
            forall|j: int| 0 <= j < i ==> v.deep_view()[j] != s@,
        decreases n - i,
    {
        if str_eq(v[i].as_str(), s) {
            proof {
                assert(v.deep_view()[i as int] == s@);
            }
            return true;
        }
        i += 1;
    }
    false
}

/// Looks up a direct child of `command` named `name` (or carrying it as an
/// alias). Only children are searched, never the node itself: a token that
/// re-states the current command's own name selects nothing.
pub fn search_command<'a, A>(name: &str, command: &'a CliCommand<A>) -> (r: Option<
    &'a CliCommand<A>,
>)
    ensures
        match r {
            Some(c) => find_child(command.subcommands@, name@) == Some(*c),
            None => find_child(command.subcommands@, name@) is None,
        },
{
    let n = command.subcommands.len();
    let mut i: usize = 0;
    proof {
        assert(command.subcommands@.skip(0) =~= command.subcommands@);
    }
    while i < n
        invariant
            n == command.subcommands.len(),
            i <= n,
            find_child(command.subcommands@, name@) == find_child(
                command.subcommands@.skip(i as int),
                name@,
            ),
        decreases n - i,
    {
        let child = &command.subcommands[i];
        proof {
            assert(command.subcommands@.skip(i as int)[0] == command.subcommands@[i as int]);
        }
        if str_eq(child.name.as_str(), name) || contains_string(&child.aliases, name) {
            return Some(child);
        }
        proof {
            assert(command.subcommands@.skip(i as int).skip(1) =~= command.subcommands@.skip(
                i as int + 1,
            ));
        }
        i += 1;
    }
    proof {
        assert(command.subcommands@.skip(n as int) =~= Seq::<CliCommand<A>>::empty());
    }
    None
}

/// The command that the resolver selects: tokens are scanned left to right,
/// dash tokens are skipped, and each non-dash token that names a direct
/// child of the current selection descends to it; anything else leaves the
/// selection unchanged.
pub open spec fn spec_select<A>(tokens: Seq<Seq<char>>, cmd: CliCommand<A>) -> CliCommand<A>
    decreases tokens.len(),
{
    if tokens.len() == 0 {
        cmd
    } else {
        let t = tokens[0];
        let next = if !spec_is_dash(t) {
            match find_child(cmd.subcommands@, t) {
                Some(c) => c,
                None => cmd,
            }
        } else {
            cmd
        };
        spec_select(tokens.skip(1), next)
    }
}

/// Walks the token list against the tree rooted at `command` and returns
/// the deepest matching node; the root itself if no token ever matches.
pub fn select_command<'a, A>(env_args: &Vec<String>, command: &'a CliCommand<A>) -> (r:
    &'a CliCommand<A>)
    ensures
        *r == spec_select(env_args.deep_view(), *command),
{
    let n = env_args.len();
    let mut cmd: &CliCommand<A> = command;
    let mut i: usize = 0;
    proof {
        assert(env_args.deep_view().skip(0) =~= env_args.deep_view());
    }
    while i < n
        invariant
            n == env_args.len(),
            i <= n,
            spec_select(env_args.deep_view(), *command) == spec_select(
                env_args.deep_view().skip(i as int),
                *cmd,
            ),
        decreases n - i,
    {
        let arg = &env_args[i];
        proof {
            assert(env_args.deep_view().skip(i as int)[0] == env_args.deep_view()[i as int]);
            assert(env_args.deep_view().skip(i as int).skip(1) =~= env_args.deep_view().skip(
                i as int + 1,
            ));
        }
        if !is_dash_token(arg.as_str()) {
            if let Some(subcommand) = search_command(arg.as_str(), cmd) {
                cmd = subcommand;
            }
        }
        i += 1;
    }
    proof {
        assert(env_args.deep_view().skip(n as int) =~= Seq::<Seq<char>>::empty());
    }
    cmd
}

/// Whether `opt` is named `key`, by its long or its short name.
pub open spec fn option_matches(opt: CliCommandOption, key: Seq<char>) -> bool {
    opt.name@ == key || (opt.short_name matches Some(s) && s@ == key)
}

/// The first option of the list whose long name is `key`.
pub open spec fn find_long_option(options: Seq<CliCommandOption>, key: Seq<char>) -> Option<
    CliCommandOption,
>
    decreases options.len(),
{
    if options.len() == 0 {
        None
    } else if options[0].name@ == key {
        Some(options[0])
    } else {
        find_long_option(options.skip(1), key)
    }
}

/// The first option of the list whose short name is `key`.
pub open spec fn find_short_option(options: Seq<CliCommandOption>, key: Seq<char>) -> Option<
    CliCommandOption,
>
    decreases options.len(),
{
    if options.len() == 0 {
        None
    } else if options[0].short_name matches Some(s) && s@ == key {
        Some(options[0])
    } else {
        find_short_option(options.skip(1), key)
    }
}

/// The first option of the list that `key` names by either form.
pub open spec fn find_option(options: Seq<CliCommandOption>, key: Seq<char>) -> Option<
    CliCommandOption,
>
    decreases options.len(),
{
    if options.len() == 0 {
        None
    } else if option_matches(options[0], key) {
        Some(options[0])
    } else {
        find_option(options.skip(1), key)
    }
}

/// Looks up an option of `command` by its long name.
pub fn search_long_option<'a, A>(name: &str, command: &'a CliCommand<A>) -> (r: Option<
    &'a CliCommandOption,
>)
    ensures
        match r {
            Some(o) => find_long_option(command.options@, name@) == Some(*o),
            None => find_long_option(command.options@, name@) is None,
        },
{
    let n = command.options.len();
    let mut i: usize = 0;
    proof {
        assert(command.options@.skip(0) =~= command.options@);
    }
    while i < n
        invariant
            n == command.options.len(),
            i <= n,
            find_long_option(command.options@, name@) == find_long_option(
                command.options@.skip(i as int),
                name@,
            ),
        decreases n - i,
    {
        let opt = &command.options[i];
        proof {
            assert(command.options@.skip(i as int)[0] == command.options@[i as int]);
            assert(command.options@.skip(i as int).skip(1) =~= command.options@.skip(i as int + 1));
        }
        if str_eq(opt.name.as_str(), name) {
            return Some(opt);
        }
        i += 1;
    }
    proof {
        assert(command.options@.skip(n as int) =~= Seq::<CliCommandOption>::empty());
    }
    None
}

/// Looks up an option of `command` by its short name.
pub fn search_short_option<'a, A>(name: &str, command: &'a CliCommand<A>) -> (r: Option<
    &'a CliCommandOption,
>)
    ensures
        match r {
            Some(o) => find_short_option(command.options@, name@) == Some(*o),
            None => find_short_option(command.options@, name@) is None,
        },
{
    let n = command.options.len();
    let mut i: usize = 0;
    proof {
        assert(command.options@.skip(0) =~= command.options@);
    }
    while i < n
        invariant
            n == command.options.len(),
            i <= n,
            find_short_option(command.options@, name@) == find_short_option(
                command.options@.skip(i as int),
                name@,
            ),
        decreases n - i,
    {
        let opt = &command.options[i];
        proof {
            assert(command.options@.skip(i as int)[0] == command.options@[i as int]);
            assert(command.options@.skip(i as int).skip(1) =~= command.options@.skip(i as int + 1));
        }
        let hit = match &opt.short_name {
            Some(s) => str_eq(s.as_str(), name),
            None => false,
        };
        if hit {
            return Some(opt);
        }
        i += 1;
    }
    proof {
        assert(command.options@.skip(n as int) =~= Seq::<CliCommandOption>::empty());
    }
    None
}

/// Looks up an option of `command` by either its long or its short name.
pub fn search_command_options<'a, A>(name: &str, command: &'a CliCommand<A>) -> (r: Option<
    &'a CliCommandOption,
>)
    ensures
        match r {
            Some(o) => find_option(command.options@, name@) == Some(*o),
            None => find_option(command.options@, name@) is None,
        },
{
    let n = command.options.len();
    let mut i: usize = 0;
    proof {
        assert(command.options@.skip(0) =~= command.options@);
    }
    while i < n
        invariant
            n == command.options.len(),
            i <= n,
            find_option(command.options@, name@) == find_option(
                command.options@.skip(i as int),
                name@,
            ),
        decreases n - i,
    {
        let opt = &command.options[i];
        proof {
            assert(command.options@.skip(i as int)[0] == command.options@[i as int]);
            assert(command.options@.skip(i as int).skip(1) =~= command.options@.skip(i as int + 1));
        }
        let hit = str_eq(opt.name.as_str(), name) || (match &opt.short_name {
            Some(s) => str_eq(s.as_str(), name),
            None => false,
        });
        if hit {
            return Some(opt);
        }
        i += 1;
    }
    proof {
        assert(command.options@.skip(n as int) =~= Seq::<CliCommandOption>::empty());
    }
    None
}

/// Whether the token list asks for help anywhere.
pub open spec fn spec_has_help_flag(tokens: Seq<Seq<char>>) -> bool {
    exists|i: int| 0 <= i < tokens.len() && (tokens[i] == "--help"@ || tokens[i] == "-h"@)
}

/// Whether the token list asks for the version anywhere.
pub open spec fn spec_has_version_flag(tokens: Seq<Seq<char>>) -> bool {
    exists|i: int| 0 <= i < tokens.len() && (tokens[i] == "--version"@ || tokens[i] == "-V"@)
}

/// Scans the raw token list for `--help` or `-h`.
pub fn search_for_help_flag(env_args: &Vec<String>) -> (r: bool)
    ensures
        r == spec_has_help_flag(env_args.deep_view()),
{
    let n = env_args.len();
    let mut i: usize = 0;
    while i < n
        invariant
            n == env_args.len(),
            i <= n,
            forall|j: int|
                0 <= j < i ==> env_args.deep_view()[j] != "--help"@ && env_args.deep_view()[j]
                    != "-h"@,
        decreases n - i,
    {
        if str_eq(env_args[i].as_str(), "--help") || str_eq(env_args[i].as_str(), "-h") {
            proof {
                assert(env_args.deep_view()[i as int] == "--help"@ || env_args.deep_view()[i as int]
                    == "-h"@);
            }
            return true;
        }
        i += 1;
    }
    false
}

/// Scans the raw token list for `--version` or `-V`.
pub fn search_for_version_flag(env_args: &Vec<String>) -> (r: bool)
    ensures
        r == spec_has_version_flag(env_args.deep_view()),
{
    let n = env_args.len();
    let mut i: usize = 0;
    while i < n
        invariant
            n == env_args.len(),
            i <= n,
            forall|j: int|
                0 <= j < i ==> env_args.deep_view()[j] != "--version"@ && env_args.deep_view()[j]
                    != "-V"@,
        decreases n - i,
    {
        if str_eq(env_args[i].as_str(), "--version") || str_eq(env_args[i].as_str(), "-V") {
            proof {
                assert(env_args.deep_view()[i as int] == "--version"@ || env_args.deep_view()[i
                    as int] == "-V"@);
            }
            return true;
        }
        i += 1;
    }
    false
}

} // verus!
