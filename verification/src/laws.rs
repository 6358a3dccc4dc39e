//! The framework-wide laws, stated over the same spec functions that the
//! executable functions' contracts use, and proved once and for all.

use vstd::prelude::*;

use crate::binder::spec_collect;
use crate::cli_command::{
    find_child, find_long_option, find_short_option, spec_build, spec_select, CliCommand,
    CliCommandBuilder, CliCommandOption,
};
use crate::help::{
    concat_lines, spec_child_label, spec_child_line, spec_child_line_list, spec_commands_section,
    spec_description_section, spec_help, spec_max_child_label, spec_max_option_label,
    spec_option_label, spec_option_line, spec_option_line_list, spec_options_section,
    spec_usage_section,
};
use crate::text::{spaces, spec_is_dash, spec_is_long, strip_long_spec, strip_short_spec};

verus! {

/// Law: a token list that holds no dash-prefixed token and in which no
/// token names a child of the root (by name or alias) leaves the resolver
/// at the root, unchanged.
pub proof fn lemma_resolver_unmatched_keeps_root<A>(tokens: Seq<Seq<char>>, root: CliCommand<A>)
    requires
        forall|i: int| 0 <= i < tokens.len() ==> !spec_is_dash(#[trigger] tokens[i]),
        forall|i: int|
            0 <= i < tokens.len() ==> find_child(root.subcommands@, #[trigger] tokens[i]) is None,
    ensures
        spec_select(tokens, root) == root,
    decreases tokens.len(),
{
    if tokens.len() > 0 {
        assert(forall|i: int|
            0 <= i < tokens.skip(1).len() ==> #[trigger] tokens.skip(1)[i] == tokens[i + 1]);
        lemma_resolver_unmatched_keeps_root(tokens.skip(1), root);
    }
}

/// Classification of plain tokens alone, from any cursor: each binds the
/// slot at the cursor and advances it, appending to the bindings in order.
proof fn lemma_plain_tokens_bind_slots(
    tokens: Seq<Seq<char>>,
    options: Seq<CliCommandOption>,
    slots: Seq<Seq<char>>,
    cursor: int,
    acc: Seq<(Seq<char>, Option<Seq<char>>)>,
)
    requires
        forall|i: int| 0 <= i < tokens.len() ==> !spec_is_dash(#[trigger] tokens[i]),
        0 <= cursor,
        cursor + tokens.len() <= slots.len(),
    ensures
        ({
            let r = spec_collect(tokens, options, slots, false, cursor, acc);
            &&& r.len() == acc.len() + tokens.len()
            &&& forall|j: int| 0 <= j < acc.len() ==> r[j] == acc[j]
            &&& forall|i: int|
                0 <= i < tokens.len() ==> r[acc.len() + i] == (
                slots[cursor + i],
                Some(#[trigger] tokens[i]),
                )
        }),
    decreases tokens.len(),
{
    if tokens.len() > 0 {
        let t = tokens[0];
        let rest = tokens.skip(1);
        let acc2 = acc.push((slots[cursor], Some(t)));
        assert(forall|i: int| 0 <= i < rest.len() ==> #[trigger] rest[i] == tokens[i + 1]);
        lemma_plain_tokens_bind_slots(rest, options, slots, cursor + 1, acc2);
        let r = spec_collect(tokens, options, slots, false, cursor, acc);
        assert(r == spec_collect(rest, options, slots, false, cursor + 1, acc2));
        assert forall|i: int| 0 <= i < tokens.len() implies r[acc.len() + i] == (
            slots[cursor + i],
            Some(#[trigger] tokens[i]),
        ) by {
            if i == 0 {
                assert(r[acc2.len() - 1] == acc2[acc2.len() - 1]);
            } else {
                assert(r[acc2.len() + (i - 1)] == (slots[cursor + 1 + (i - 1)], Some(rest[i - 1])));
            }
        }
    }
}

/// Law: a command with `k` declared positional slots, presented `k` plain
/// tokens and no competing options, binds exactly `k` pairs whose keys are
/// the slot names in declared order and whose values are the tokens.
pub proof fn lemma_positionals_bind_in_declared_order(
    tokens: Seq<Seq<char>>,
    options: Seq<CliCommandOption>,
    slots: Seq<Seq<char>>,
)
    requires
        forall|i: int| 0 <= i < tokens.len() ==> !spec_is_dash(#[trigger] tokens[i]),
        tokens.len() == slots.len(),
    ensures
        crate::binder::spec_bindings(tokens, options, slots).len() == tokens.len(),
        forall|i: int|
            0 <= i < tokens.len() ==> crate::binder::spec_bindings(tokens, options, slots)[i] == (
            slots[i],
            Some(#[trigger] tokens[i]),
            ),
{
    lemma_plain_tokens_bind_slots(tokens, options, slots, 0, Seq::empty());
}

/// The value that resolves an open option slot: the first plain token of
/// the list, unless a recognized option token comes first or the list ends,
/// in which case there is none (and the argument-map fold later defaults it
/// to the empty string).
pub open spec fn next_plain_value(tokens: Seq<Seq<char>>, options: Seq<CliCommandOption>) -> Option<
    Seq<char>,
>
    decreases tokens.len(),
{
    if tokens.len() == 0 {
        None
    } else {
        let t = tokens[0];
        if spec_is_long(t) {
            match find_long_option(options, strip_long_spec(t)) {
                Some(_) => None,
                None => next_plain_value(tokens.skip(1), options),
            }
        } else if spec_is_dash(t) {
            match find_short_option(options, strip_short_spec(t)) {
                Some(_) => None,
                None => next_plain_value(tokens.skip(1), options),
            }
        } else {
            Some(t)
        }
    }
}

/// Classification never disturbs bindings that are already closed: every
/// accumulated binding below the open slot (if any) survives unchanged, and
/// an open binding keeps its key.
proof fn lemma_collect_extends(
    tokens: Seq<Seq<char>>,
    options: Seq<CliCommandOption>,
    slots: Seq<Seq<char>>,
    pending: bool,
    cursor: int,
    acc: Seq<(Seq<char>, Option<Seq<char>>)>,
)
    requires
        pending ==> acc.len() > 0,
    ensures
        ({
            let r = spec_collect(tokens, options, slots, pending, cursor, acc);
            &&& r.len() >= acc.len()
            &&& forall|j: int|
                0 <= j < acc.len() - (if pending {
                    1int
                } else {
                    0int
                }) ==> r[j] == acc[j]
            &&& (pending ==> r[acc.len() - 1].0 == acc[acc.len() - 1].0)
        }),
    decreases tokens.len(),
{
    if tokens.len() > 0 {
        let t = tokens[0];
        let rest = tokens.skip(1);
        if spec_is_long(t) {
            match find_long_option(options, strip_long_spec(t)) {
                Some(def) => {
                    if def.is_flag {
                        lemma_collect_extends(
                            rest,
                            options,
                            slots,
                            false,
                            cursor,
                            acc.push((def.name@, Some("true"@))),
                        );
                    } else {
                        lemma_collect_extends(
                            rest,
                            options,
                            slots,
                            true,
                            cursor,
                            acc.push((def.name@, None)),
                        );
                    }
                },
                None => {
                    lemma_collect_extends(rest, options, slots, pending, cursor, acc);
                },
            }
        } else if spec_is_dash(t) {
            match find_short_option(options, strip_short_spec(t)) {
                Some(def) => {
                    if def.is_flag {
                        lemma_collect_extends(
                            rest,
                            options,
                            slots,
                            false,
                            cursor,
                            acc.push((def.name@, Some("true"@))),
                        );
                    } else {
                        lemma_collect_extends(
                            rest,
                            options,
                            slots,
                            true,
                            cursor,
                            acc.push((def.name@, None)),
                        );
                    }
                },
                None => {
                    lemma_collect_extends(rest, options, slots, pending, cursor, acc);
                },
            }
        } else {
            if pending {
                lemma_collect_extends(
                    rest,
                    options,
                    slots,
                    false,
                    cursor,
                    acc.drop_last().push((acc.last().0, Some(t))),
                );
            } else if cursor < slots.len() {
                lemma_collect_extends(
                    rest,
                    options,
                    slots,
                    false,
                    cursor + 1,
                    acc.push((slots[cursor], Some(t))),
                );
            } else {
                lemma_collect_extends(rest, options, slots, false, cursor, acc);
            }
        }
    }
}

/// An open non-flag binding resolves to exactly the next plain token of
/// the remaining list (or stays empty when a recognized option token or the
/// end of input comes first), and every closed binding below it survives.
proof fn lemma_pending_resolves(
    tokens: Seq<Seq<char>>,
    options: Seq<CliCommandOption>,
    slots: Seq<Seq<char>>,
    cursor: int,
    acc: Seq<(Seq<char>, Option<Seq<char>>)>,
)
    requires
        acc.len() > 0,
        acc.last().1 is None,
    ensures
        ({
            let r = spec_collect(tokens, options, slots, true, cursor, acc);
            &&& r.len() >= acc.len()
            &&& forall|j: int| 0 <= j < acc.len() - 1 ==> r[j] == acc[j]
            &&& r[acc.len() - 1] == (acc.last().0, next_plain_value(tokens, options))
        }),
    decreases tokens.len(),
{
    if tokens.len() == 0 {
    } else {
        let t = tokens[0];
        let rest = tokens.skip(1);
        if spec_is_long(t) {
            match find_long_option(options, strip_long_spec(t)) {
                Some(def) => {
                    if def.is_flag {
                        lemma_collect_extends(
                            rest,
                            options,
                            slots,
                            false,
                            cursor,
                            acc.push((def.name@, Some("true"@))),
                        );
                    } else {
                        lemma_pending_resolves(
                            rest,
                            options,
                            slots,
                            cursor,
                            acc.push((def.name@, None)),
                        );
                    }
                },
                None => {
                    lemma_pending_resolves(rest, options, slots, cursor, acc);
                },
            }
        } else if spec_is_dash(t) {
            match find_short_option(options, strip_short_spec(t)) {
                Some(def) => {
                    if def.is_flag {
                        lemma_collect_extends(
                            rest,
                            options,
                            slots,
                            false,
                            cursor,
                            acc.push((def.name@, Some("true"@))),
                        );
                    } else {
                        lemma_pending_resolves(
                            rest,
                            options,
                            slots,
                            cursor,
                            acc.push((def.name@, None)),
                        );
                    }
                },
                None => {
                    lemma_pending_resolves(rest, options, slots, cursor, acc);
                },
            }
        } else {
            lemma_collect_extends(
                rest,
                options,
                slots,
                false,
                cursor,
                acc.drop_last().push((acc.last().0, Some(t))),
            );
        }
    }
}

/// Law (first half): a recognized flag option binds `(name, "true")` on the
/// spot and consumes nothing — classification of the remaining tokens goes
/// on with no open value slot and an unchanged positional cursor.
pub proof fn lemma_flag_never_consumes(
    tokens: Seq<Seq<char>>,
    options: Seq<CliCommandOption>,
    slots: Seq<Seq<char>>,
    pending: bool,
    cursor: int,
    acc: Seq<(Seq<char>, Option<Seq<char>>)>,
    def: CliCommandOption,
)
    requires
        tokens.len() > 0,
        def.is_flag,
        (spec_is_long(tokens[0]) && find_long_option(options, strip_long_spec(tokens[0]))
            == Some(def)) || (!spec_is_long(tokens[0]) && spec_is_dash(tokens[0])
            && find_short_option(options, strip_short_spec(tokens[0])) == Some(def)),
    ensures
        spec_collect(tokens, options, slots, pending, cursor, acc) == spec_collect(
            tokens.skip(1),
            options,
            slots,
            false,
            cursor,
            acc.push((def.name@, Some("true"@))),
        ),
{
}

/// Law (second half): a recognized non-flag option binds exactly one
/// pair whose value is the next plain token of the rest, or nothing (later
/// defaulted to the empty string) when a recognized option token or the end
/// of input comes first.
pub proof fn lemma_value_option_binds_next_plain(
    tokens: Seq<Seq<char>>,
    options: Seq<CliCommandOption>,
    slots: Seq<Seq<char>>,
    cursor: int,
    acc: Seq<(Seq<char>, Option<Seq<char>>)>,
    def: CliCommandOption,
)
    requires
        tokens.len() > 0,
        !def.is_flag,
        (spec_is_long(tokens[0]) && find_long_option(options, strip_long_spec(tokens[0]))
            == Some(def)) || (!spec_is_long(tokens[0]) && spec_is_dash(tokens[0])
            && find_short_option(options, strip_short_spec(tokens[0])) == Some(def)),
    ensures
        ({
            let r = spec_collect(tokens, options, slots, false, cursor, acc);
            &&& r.len() > acc.len()
            &&& r[acc.len() as int].0 == def.name@
            &&& r[acc.len() as int].1 == next_plain_value(tokens.skip(1), options)
        }),
{
    let acc2 = acc.push((def.name@, None));
    lemma_pending_resolves(tokens.skip(1), options, slots, cursor, acc2);
}

/// Law: whichever of its two forms matched — the long name behind `--` or
/// the short name behind `-` — an option binds under its long name, so both
/// forms reach the same argument-map key.
pub proof fn lemma_option_forms_share_key(
    tokens: Seq<Seq<char>>,
    options: Seq<CliCommandOption>,
    slots: Seq<Seq<char>>,
    cursor: int,
    acc: Seq<(Seq<char>, Option<Seq<char>>)>,
    def: CliCommandOption,
)
    requires
        tokens.len() > 0,
        (spec_is_long(tokens[0]) && find_long_option(options, strip_long_spec(tokens[0]))
            == Some(def)) || (!spec_is_long(tokens[0]) && spec_is_dash(tokens[0])
            && find_short_option(options, strip_short_spec(tokens[0])) == Some(def)),
    ensures
        ({
            let r = spec_collect(tokens, options, slots, false, cursor, acc);
            &&& r.len() > acc.len()
            &&& r[acc.len() as int].0 == def.name@
        }),
{
    if def.is_flag {
        let acc2 = acc.push((def.name@, Some("true"@)));
        lemma_collect_extends(tokens.skip(1), options, slots, false, cursor, acc2);
    } else {
        let acc2 = acc.push((def.name@, None));
        lemma_collect_extends(tokens.skip(1), options, slots, true, cursor, acc2);
    }
}

/// Law: a command built by the builder renders a help text that lists every
/// declared child and option exactly once, in declaration order, each under
/// a non-empty label.
pub proof fn lemma_built_help_lists_declarations<A>(b: CliCommandBuilder<A>)
    requires
        forall|i: int| 0 <= i < b.subcommands@.len() ==> (#[trigger] b.subcommands@[i].name)@.len()
            > 0,
    ensures
        ({
            let cmd = spec_build(b);
            let wc = spec_max_child_label(cmd.subcommands@);
            let wo = spec_max_option_label(cmd.options@);
            let child_lines = spec_child_line_list(cmd.subcommands@, wc);
            let option_lines = spec_option_line_list(cmd.options@, wo);
            &&& cmd.subcommands@ == b.subcommands@
            &&& cmd.options@ == b.options@
            &&& spec_help(cmd) == spec_description_section(cmd) + spec_usage_section(cmd)
                + spec_commands_section(cmd) + spec_options_section(cmd)
            &&& child_lines.len() == b.subcommands@.len()
            &&& option_lines.len() == b.options@.len()
            &&& forall|i: int|
                0 <= i < b.subcommands@.len() ==> #[trigger] child_lines[i] == spec_child_line(
                    b.subcommands@[i],
                    wc,
                )
            &&& forall|i: int|
                0 <= i < b.options@.len() ==> #[trigger] option_lines[i] == spec_option_line(
                    b.options@[i],
                    wo,
                )
            &&& forall|i: int|
                0 <= i < b.subcommands@.len() ==> spec_child_label(
                    #[trigger] b.subcommands@[i],
                ).len() > 0
            &&& forall|i: int|
                0 <= i < b.options@.len() ==> spec_option_label(#[trigger] b.options@[i]).len() > 0
            &&& (b.subcommands@.len() > 0 ==> spec_commands_section(cmd) == "\nCOMMANDS\n"@
                + concat_lines(child_lines) + "\n"@ + spaces(4) + "Use \""@ + cmd.name@
                + " COMMAND --help\" for more information about a command.\n"@)
            &&& (b.options@.len() > 0 ==> spec_options_section(cmd) == "\nOPTIONS\n"@
                + concat_lines(option_lines))
        }),
{
    let cmd = spec_build(b);
    reveal_strlit("[");
    reveal_strlit("]");
    reveal_strlit("--");
    assert forall|i: int| 0 <= i < b.subcommands@.len() implies spec_child_label(
        #[trigger] b.subcommands@[i],
    ).len() > 0 by {
        let c = b.subcommands@[i];
        if c.optional {
            assert(spec_child_label(c).len() == 2 + c.name@.len());
        }
    }
    assert forall|i: int| 0 <= i < b.options@.len() implies spec_option_label(
        #[trigger] b.options@[i],
    ).len() > 0 by {
        let o = b.options@[i];
        assert(spec_option_label(o).len() >= "--"@.len());
    }
}

} // verus!
