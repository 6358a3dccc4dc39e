//! The help and version renderer: pure text derived from the command tree,
//! so documentation cannot drift from behavior.
//!
//! Sections appear in fixed order and only when their source data is
//! non-empty: DESCRIPTION, USAGE, COMMANDS, OPTIONS. Column widths are the
//! longest rendered label of the listed set, computed per render.

use vstd::prelude::*;
use vstd::string::*;

use crate::cli_command::{CliCommand, CliCommandOption};
use crate::text::{spaces, push_spaces};

verus! {

/// The version banner: the command's name, a space, and its version text
/// (empty when unset).
pub open spec fn spec_version_banner<A>(cmd: CliCommand<A>) -> Seq<char> {
    cmd.name@ + " "@ + (match cmd.version {
        Some(v) => v@,
        None => Seq::<char>::empty(),
    })
}

/// `s` left-justified in a column of width `w` (unchanged when longer).
pub open spec fn pad_right(s: Seq<char>, w: nat) -> Seq<char> {
    if s.len() < w {
        s + spaces((w - s.len()) as nat)
    } else {
        s
    }
}

/// The label a child is listed under: its name, bracketed when optional.
pub open spec fn spec_child_label<A>(c: CliCommand<A>) -> Seq<char> {
    if c.optional {
        "["@ + c.name@ + "]"@
    } else {
        c.name@
    }
}

/// The label an option is listed under: `-s, ` when a short name exists,
/// then `--name, ` for a flag or `--name <value>, ` for a value-taker.
pub open spec fn spec_option_label(opt: CliCommandOption) -> Seq<char> {
    (match opt.short_name {
        Some(s) => "-"@ + s@ + ", "@,
        None => Seq::<char>::empty(),
    }) + (if opt.is_flag {
        "--"@ + opt.name@ + ", "@
    } else {
        "--"@ + opt.name@ + " <value>, "@
    })
}

/// The longest child label of the list.
pub open spec fn spec_max_child_label<A>(children: Seq<CliCommand<A>>) -> nat
    decreases children.len(),
{
    if children.len() == 0 {
        0
    } else {
        let rest = spec_max_child_label(children.skip(1));
        let first = spec_child_label(children[0]).len();
        if first > rest {
            first
        } else {
            rest
        }
    }
}

/// The longest option label of the list.
pub open spec fn spec_max_option_label(options: Seq<CliCommandOption>) -> nat
    decreases options.len(),
{
    if options.len() == 0 {
        0
    } else {
        let rest = spec_max_option_label(options.skip(1));
        let first = spec_option_label(options[0]).len();
        if first > rest {
            first
        } else {
            rest
        }
    }
}

/// One COMMANDS line: indent, padded label, ` - `, description, newline.
pub open spec fn spec_child_line<A>(c: CliCommand<A>, w: nat) -> Seq<char> {
    spaces(4) + pad_right(spec_child_label(c), w) + " - "@ + (match c.description {
        Some(d) => d@,
        None => Seq::<char>::empty(),
    }) + "\n"@
}

/// One OPTIONS line: indent, padded label, description, newline.
pub open spec fn spec_option_line(opt: CliCommandOption, w: nat) -> Seq<char> {
    spaces(4) + pad_right(spec_option_label(opt), w) + (match opt.description {
        Some(d) => d@,
        None => Seq::<char>::empty(),
    }) + "\n"@
}

/// One line per child, in declaration order.
pub open spec fn spec_child_line_list<A>(children: Seq<CliCommand<A>>, w: nat) -> Seq<Seq<char>> {
    Seq::new(children.len(), |i: int| spec_child_line(children[i], w))
}

/// One line per option, in declaration order.
pub open spec fn spec_option_line_list(options: Seq<CliCommandOption>, w: nat) -> Seq<Seq<char>> {
    Seq::new(options.len(), |i: int| spec_option_line(options[i], w))
}

/// The lines joined in order.
pub open spec fn concat_lines(lines: Seq<Seq<char>>) -> Seq<char>
    decreases lines.len(),
{
    if lines.len() == 0 {
        Seq::empty()
    } else {
        lines[0] + concat_lines(lines.skip(1))
    }
}

/// The DESCRIPTION section, empty when the command has no description.
pub open spec fn spec_description_section<A>(cmd: CliCommand<A>) -> Seq<char> {
    match cmd.description {
        Some(d) => "\nDESCRIPTION\n"@ + spaces(4) + d@ + "\n"@,
        None => Seq::<char>::empty(),
    }
}

/// The USAGE section: the name, a COMMAND slot when children exist
/// (bracketed when the node itself has a handler to fall back on), and an
/// OPTIONS slot when options are declared.
pub open spec fn spec_usage_section<A>(cmd: CliCommand<A>) -> Seq<char> {
    "\nUSAGE\n"@ + spaces(4) + "$ "@ + cmd.name@ + (if cmd.subcommands@.len() == 0 {
        Seq::<char>::empty()
    } else if cmd.action is None {
        " [COMMAND]"@
    } else {
        " COMMAND"@
    }) + (if cmd.options@.len() == 0 {
        Seq::<char>::empty()
    } else {
        " [OPTIONS]"@
    }) + "\n"@
}

/// The COMMANDS section, empty when the command has no children.
pub open spec fn spec_commands_section<A>(cmd: CliCommand<A>) -> Seq<char> {
    if cmd.subcommands@.len() == 0 {
        Seq::<char>::empty()
    } else {
        "\nCOMMANDS\n"@ + concat_lines(
            spec_child_line_list(cmd.subcommands@, spec_max_child_label(cmd.subcommands@)),
        ) + "\n"@ + spaces(4) + "Use \""@ + cmd.name@
            + " COMMAND --help\" for more information about a command.\n"@
    }
}

/// The OPTIONS section, empty when the command declares no options.
pub open spec fn spec_options_section<A>(cmd: CliCommand<A>) -> Seq<char> {
    if cmd.options@.len() == 0 {
        Seq::<char>::empty()
    } else {
        "\nOPTIONS\n"@ + concat_lines(
            spec_option_line_list(cmd.options@, spec_max_option_label(cmd.options@)),
        )
    }
}

/// The whole help text: the four sections in fixed order.
pub open spec fn spec_help<A>(cmd: CliCommand<A>) -> Seq<char> {
    spec_description_section(cmd) + spec_usage_section(cmd) + spec_commands_section(cmd)
        + spec_options_section(cmd)
}

/// Renders the label a child is listed under.
fn child_label<A>(c: &CliCommand<A>) -> (r: String)
    ensures
        r@ == spec_child_label(*c),
{
    if c.optional {
        let mut s = String::from_str("[");
        s.append(c.name.as_str());
        s.append("]");
        proof {
            assert("["@ + c.name@ + "]"@ =~= s@);
        }
        s
    } else {
        let mut s = String::new();
        s.append(c.name.as_str());
        proof {
            assert(s@ =~= c.name@);
        }
        s
    }
}

/// Renders the label an option is listed under.
fn option_label(opt: &CliCommandOption) -> (r: String)
    ensures
        r@ == spec_option_label(*opt),
{
    let mut s = String::new();
    match &opt.short_name {
        Some(short) => {
            s.append("-");
            s.append(short.as_str());
            s.append(", ");
        },
        None => {},
    }
    s.append("--");
    s.append(opt.name.as_str());
    if opt.is_flag {
        s.append(", ");
    } else {
        s.append(" <value>, ");
    }
    proof {
        assert(s@ =~= spec_option_label(*opt));
    }
    s
}

impl<A> CliCommand<A> {
    /// Renders the version banner: `name version-or-empty`.
    pub fn get_version(&self) -> (r: String)
        ensures
            r@ == spec_version_banner(*self),
    {
        let mut s = String::new();
        s.append(self.name.as_str());
        s.append(" ");
        match &self.version {
            Some(v) => s.append(v.as_str()),
            None => {},
        }
        proof {
            assert(s@ =~= spec_version_banner(*self));
        }
        s
    }

    /// The DESCRIPTION section of this command's help, or nothing.
    fn help_description(&self) -> (r: String)
        ensures
            r@ == spec_description_section(*self),
    {
        let mut s = String::new();
        match &self.description {
            Some(d) => {
                s.append("\nDESCRIPTION\n");
                push_spaces(&mut s, 4);
                s.append(d.as_str());
                s.append("\n");
            },
            None => {},
        }
        proof {
            assert(s@ =~= spec_description_section(*self));
        }
        s
    }

    /// The USAGE section of this command's help.
    fn help_usage(&self) -> (r: String)
        ensures
            r@ == spec_usage_section(*self),
    {
        let mut s = String::from_str("\nUSAGE\n");
        push_spaces(&mut s, 4);
        s.append("$ ");
        s.append(self.name.as_str());
        if self.subcommands.len() > 0 {
            if self.action.is_none() {
                s.append(" [COMMAND]");
            } else {
                s.append(" COMMAND");
            }
        }
        if self.options.len() > 0 {
            s.append(" [OPTIONS]");
        }
        s.append("\n");
        proof {
            assert(s@ =~= spec_usage_section(*self));
        }
        s
    }

    /// The COMMANDS section of this command's help, or nothing.
    fn help_subcommands(&self) -> (r: String)
        ensures
            r@ == spec_commands_section(*self),
    {
        let mut s = String::new();
        if self.subcommands.len() == 0 {
            proof {
                assert(s@ =~= spec_commands_section(*self));
            }
            return s;
        }

        // the column width: the longest rendered child label
        let ghost children = self.subcommands@;
        let n = self.subcommands.len();
        let mut width: usize = 0;
        let mut i: usize = 0;
        proof {
            assert(children.skip(0) =~= children);
        }
        while i < n
            invariant
                n == self.subcommands.len(),
                children == self.subcommands@,
                i <= n,
                spec_max_child_label(children) == (if width as nat > spec_max_child_label(
                    children.skip(i as int),
                ) {
                    width as nat
                } else {
                    spec_max_child_label(children.skip(i as int))
                }),
            decreases n - i,
        {
            proof {
                assert(children.skip(i as int)[0] == children[i as int]);
                assert(children.skip(i as int).skip(1) =~= children.skip(i as int + 1));
            }
            let label = child_label(&self.subcommands[i]);
            let len = label.as_str().unicode_len();
            if len > width {
                width = len;
            }
            i += 1;
        }
        proof {
            assert(spec_max_child_label(children.skip(n as int)) == 0);
            assert(width as nat == spec_max_child_label(children));
        }

        s.append("\nCOMMANDS\n");
        let ghost lines = spec_child_line_list(children, width as nat);
        let ghost header = s@;
        let mut i: usize = 0;
        proof {
            assert(lines.skip(0) =~= lines);
        }
        while i < n
            invariant
                n == self.subcommands.len(),
                children == self.subcommands@,
                lines == spec_child_line_list(children, width as nat),
                i <= n,
                s@ + concat_lines(lines.skip(i as int)) == header + concat_lines(lines),
            decreases n - i,
        {
            proof {
                assert(lines.skip(i as int)[0] == lines[i as int]);
                assert(lines.skip(i as int).skip(1) =~= lines.skip(i as int + 1));
            }
            let ghost before = s@;
            push_spaces(&mut s, 4);
            let label = child_label(&self.subcommands[i]);
            s.append(label.as_str());
            let len = label.as_str().unicode_len();
            if len < width {
                push_spaces(&mut s, width - len);
            }
            s.append(" - ");
            match &self.subcommands[i].description {
                Some(d) => s.append(d.as_str()),
                None => {},
            }
            s.append("\n");
            proof {
                assert(s@ =~= before + spec_child_line(children[i as int], width as nat));
                assert(before + lines[i as int] + concat_lines(lines.skip(i as int + 1)) =~= before
                    + concat_lines(lines.skip(i as int)));
            }
            i += 1;
        }
        proof {
            assert(concat_lines(lines.skip(n as int)) =~= Seq::<char>::empty());
            assert(s@ =~= header + concat_lines(lines));
        }

        s.append("\n");
        push_spaces(&mut s, 4);
        s.append("Use \"");
        s.append(self.name.as_str());
        s.append(" COMMAND --help\" for more information about a command.\n");
        proof {
            assert(s@ =~= spec_commands_section(*self));
        }
        s
    }

    /// The OPTIONS section of this command's help, or nothing.
    fn help_options(&self) -> (r: String)
        ensures
            r@ == spec_options_section(*self),
    {
        let mut s = String::new();
        if self.options.len() == 0 {
            proof {
                assert(s@ =~= spec_options_section(*self));
            }
            return s;
        }

        let ghost opts = self.options@;
        let n = self.options.len();
        let mut width: usize = 0;
        let mut i: usize = 0;
        proof {
            assert(opts.skip(0) =~= opts);
        }
        while i < n
            invariant
                n == self.options.len(),
                opts == self.options@,
                i <= n,
                spec_max_option_label(opts) == (if width as nat > spec_max_option_label(
                    opts.skip(i as int),
                ) {
                    width as nat
                } else {
                    spec_max_option_label(opts.skip(i as int))
                }),
            decreases n - i,
        {
            proof {
                assert(opts.skip(i as int)[0] == opts[i as int]);
                assert(opts.skip(i as int).skip(1) =~= opts.skip(i as int + 1));
            }
            let label = option_label(&self.options[i]);
            let len = label.as_str().unicode_len();
            if len > width {
                width = len;
            }
            i += 1;
        }
        proof {
            assert(spec_max_option_label(opts.skip(n as int)) == 0);
            assert(width as nat == spec_max_option_label(opts));
        }

        s.append("\nOPTIONS\n");
        let ghost lines = spec_option_line_list(opts, width as nat);
        let ghost header = s@;
        let mut i: usize = 0;
        proof {
            assert(lines.skip(0) =~= lines);
        }
        while i < n
            invariant
                n == self.options.len(),
                opts == self.options@,
                lines == spec_option_line_list(opts, width as nat),
                i <= n,
                s@ + concat_lines(lines.skip(i as int)) == header + concat_lines(lines),
            decreases n - i,
        {
            proof {
                assert(lines.skip(i as int)[0] == lines[i as int]);
                assert(lines.skip(i as int).skip(1) =~= lines.skip(i as int + 1));
            }
            let ghost before = s@;
            push_spaces(&mut s, 4);
            let label = option_label(&self.options[i]);
            s.append(label.as_str());
            let len = label.as_str().unicode_len();
            if len < width {
                push_spaces(&mut s, width - len);
            }
            match &self.options[i].description {
                Some(d) => s.append(d.as_str()),
                None => {},
            }
            s.append("\n");
            proof {
                assert(s@ =~= before + spec_option_line(opts[i as int], width as nat));
                assert(before + lines[i as int] + concat_lines(lines.skip(i as int + 1)) =~= before
                    + concat_lines(lines.skip(i as int)));
            }
            i += 1;
        }
        proof {
            assert(concat_lines(lines.skip(n as int)) =~= Seq::<char>::empty());
            assert(s@ =~= header + concat_lines(lines));
        }
        proof {
            assert(s@ =~= spec_options_section(*self));
        }
        s
    }

    /// Renders this command's whole help text.
    pub fn get_help(&self) -> (r: String)
        ensures
            r@ == spec_help(*self),
    {
        let mut s = self.help_description();
        let usage = self.help_usage();
        s.append(usage.as_str());
        let commands = self.help_subcommands();
        s.append(commands.as_str());
        let options = self.help_options();
        s.append(options.as_str());
        proof {
            assert(s@ =~= spec_help(*self));
        }
        s
    }
}

} // verus!
