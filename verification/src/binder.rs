//! The token classifier and binder: walks the retained tokens against the
//! active command's option definitions and positional slots and produces the
//! ordered list of `(key, optional value)` bindings.
//!
//! Classification keeps one unit of lookback state: an open value slot for
//! the most recently matched non-flag option, and a positional cursor.
//! Unknown option tokens and surplus positionals are dropped silently, by
//! design.

use vstd::prelude::*;
use vstd::string::*;

use crate::cli_command::{find_long_option, find_short_option, CliCommand, CliCommandOption};
use crate::text::{
    is_dash_token, is_long_token, spec_is_dash, spec_is_long, str_eq, strip_long_dashes,
    strip_long_spec, strip_short_dashes, strip_short_spec,
};

verus! {

/// One classification step over the remaining tokens, carried out on views.
///
/// `pending` records that the most recently pushed binding belongs to a
/// non-flag option and still awaits its value; `cursor` is the index of the
/// next positional slot. A recognized long or short option pushes a binding
/// (value "true" for a flag, empty for a value-taking option); an unknown
/// option token changes nothing, not even the lookback state; a plain token
/// fills the open value slot if one exists, else binds the next positional
/// slot, else is dropped.
pub open spec fn spec_collect(
    tokens: Seq<Seq<char>>,
    options: Seq<CliCommandOption>,
    slots: Seq<Seq<char>>,
    pending: bool,
    cursor: int,
    acc: Seq<(Seq<char>, Option<Seq<char>>)>,
) -> Seq<(Seq<char>, Option<Seq<char>>)>
    decreases tokens.len(),
{
    if tokens.len() == 0 {
        acc
    } else {
        let t = tokens[0];
        let rest = tokens.skip(1);
        if spec_is_long(t) {
            match find_long_option(options, strip_long_spec(t)) {
                Some(def) => if def.is_flag {
                    spec_collect(
                        rest,
                        options,
                        slots,
                        false,
                        cursor,
                        acc.push((def.name@, Some("true"@))),
                    )
                } else {
                    spec_collect(rest, options, slots, true, cursor, acc.push((def.name@, None)))
                },
                None => spec_collect(rest, options, slots, pending, cursor, acc),
            }
        } else if spec_is_dash(t) {
            match find_short_option(options, strip_short_spec(t)) {
                Some(def) => if def.is_flag {
                    spec_collect(
                        rest,
                        options,
                        slots,
                        false,
                        cursor,
                        acc.push((def.name@, Some("true"@))),
                    )
                } else {
                    spec_collect(rest, options, slots, true, cursor, acc.push((def.name@, None)))
                },
                None => spec_collect(rest, options, slots, pending, cursor, acc),
            }
        } else {
            if pending {
                spec_collect(
                    rest,
                    options,
                    slots,
                    false,
                    cursor,
                    acc.drop_last().push((acc.last().0, Some(t))),
                )
            } else if cursor < slots.len() {
                spec_collect(
                    rest,
                    options,
                    slots,
                    false,
                    cursor + 1,
                    acc.push((slots[cursor], Some(t))),
                )
            } else {
                spec_collect(rest, options, slots, false, cursor, acc)
            }
        }
    }
}

/// The bindings that classification of `tokens` yields for a command with
/// the given option definitions and positional slot names.
pub open spec fn spec_bindings(
    tokens: Seq<Seq<char>>,
    options: Seq<CliCommandOption>,
    slots: Seq<Seq<char>>,
) -> Seq<(Seq<char>, Option<Seq<char>>)> {
    spec_collect(tokens, options, slots, false, 0, Seq::empty())
}

/// Classifies the retained tokens against `command`'s own option list and
/// positional slots, left to right, and returns the bindings in encounter
/// order. Unknown options and surplus positionals are dropped silently.
pub fn collect_arguments<A>(env_args: Vec<String>, command: &CliCommand<A>) -> (r: Vec<
    (String, Option<String>),
>)
    ensures
        r.deep_view() == spec_bindings(
            env_args.deep_view(),
            command.options@,
            command.arguments.deep_view(),
        ),
{
    let ghost tokens = env_args.deep_view();
    let ghost opts = command.options@;
    let ghost slots = command.arguments.deep_view();

    let mut args: Vec<(String, Option<String>)> = Vec::new();
    let mut pending = false;
    let mut positional_index: usize = 0;
    let n = env_args.len();
    let mut i: usize = 0;
    proof {
        assert(tokens.skip(0) =~= tokens);
        assert(args.deep_view() =~= Seq::<(Seq<char>, Option<Seq<char>>)>::empty());
    }
    while i < n
        invariant
            n == env_args.len(),
            tokens == env_args.deep_view(),
            opts == command.options@,
            slots == command.arguments.deep_view(),
            i <= n,
            positional_index <= command.arguments.len(),
            pending ==> args.len() > 0,
            spec_bindings(tokens, opts, slots) == spec_collect(
                tokens.skip(i as int),
                opts,
                slots,
                pending,
                positional_index as int,
                args.deep_view(),
            ),
        decreases n - i,
    {
        let arg = &env_args[i];
        proof {
            assert(tokens.skip(i as int)[0] == tokens[i as int]);
            assert(tokens.skip(i as int).skip(1) =~= tokens.skip(i as int + 1));
            assert(tokens[i as int] == arg@);
        }
        let ghost acc0 = args.deep_view();
        if is_long_token(arg.as_str()) {
            let key = strip_long_dashes(arg.as_str());
            match crate::cli_command::search_long_option(key.as_str(), command) {
                Some(def) => {
                    if def.is_flag {
                        args.push((def.name.clone(), Some(String::from_str("true"))));
                        pending = false;
                        proof {
                            assert(args.deep_view() =~= acc0.push((def.name@, Some("true"@))));
                        }
                    } else {
                        args.push((def.name.clone(), None));
                        pending = true;
                        proof {
                            assert(args.deep_view() =~= acc0.push((def.name@, None)));
                        }
                    }
                },
                None => {},
            }
        } else if is_dash_token(arg.as_str()) {
            let key = strip_short_dashes(arg.as_str());
            match crate::cli_command::search_short_option(key.as_str(), command) {
                Some(def) => {
                    if def.is_flag {
                        args.push((def.name.clone(), Some(String::from_str("true"))));
                        pending = false;
                        proof {
                            assert(args.deep_view() =~= acc0.push((def.name@, Some("true"@))));
                        }
                    } else {
                        args.push((def.name.clone(), None));
                        pending = true;
                        proof {
                            assert(args.deep_view() =~= acc0.push((def.name@, None)));
                        }
                    }
                },
                None => {},
            }
        } else {
            if pending {
                let last = args.pop().unwrap();
                args.push((last.0, Some(arg.clone())));
                pending = false;
                proof {
                    assert(args.deep_view() =~= acc0.drop_last().push((acc0.last().0, Some(arg@))));
                }
            } else if positional_index < command.arguments.len() {
                args.push((command.arguments[positional_index].clone(), Some(arg.clone())));
                proof {
                    assert(args.deep_view() =~= acc0.push(
                        (slots[positional_index as int], Some(arg@)),
                    ));
                }
                positional_index += 1;
            }
        }
        i += 1;
    }
    proof {
        assert(tokens.skip(n as int) =~= Seq::<Seq<char>>::empty());
    }
    args
}

/// The position of the first token equal to `name`, if any.
pub open spec fn first_index_of(tokens: Seq<Seq<char>>, name: Seq<char>) -> Option<int>
    decreases tokens.len(),
{
    if tokens.len() == 0 {
        None
    } else if tokens[0] == name {
        Some(0int)
    } else {
        match first_index_of(tokens.skip(1), name) {
            Some(j) => Some(j + 1),
            None => None,
        }
    }
}

/// The position of the active command's own name token in the original
/// list, or zero when it does not appear (the root was selected without a
/// name token).
pub open spec fn spec_command_index(tokens: Seq<Seq<char>>, name: Seq<char>) -> int {
    match first_index_of(tokens, name) {
        Some(i) => i,
        None => 0,
    }
}

/// The tokens kept for classification when scanning from position `pos`
/// with the command-name position `cidx`: every dash token, and every token
/// strictly after the command's own name token.
pub open spec fn spec_retained_from(tokens: Seq<Seq<char>>, pos: int, cidx: int) -> Seq<Seq<char>>
    decreases tokens.len(),
{
    if tokens.len() == 0 {
        Seq::empty()
    } else {
        let rest = spec_retained_from(tokens.skip(1), pos + 1, cidx);
        if spec_is_dash(tokens[0]) || pos > cidx {
            seq![tokens[0]] + rest
        } else {
            rest
        }
    }
}

/// The token list that the binder receives: the original list with the
/// prefix consumed by subcommand selection removed, options kept wherever
/// they stand.
pub open spec fn spec_retained(tokens: Seq<Seq<char>>, name: Seq<char>) -> Seq<Seq<char>> {
    spec_retained_from(tokens, 0, spec_command_index(tokens, name))
}

/// Drops the tokens that were consumed purely to select the subcommand
/// path: a token is kept when it starts with a dash or stands strictly
/// after the first occurrence of `command_name` in the list.
pub fn retain_binder_tokens(env_args: &Vec<String>, command_name: &str) -> (r: Vec<String>)
    ensures
        r.deep_view() == spec_retained(env_args.deep_view(), command_name@),
{
    let ghost tokens = env_args.deep_view();
    let n = env_args.len();

    // the position of the command's own name token, zero when absent
    let mut command_index: usize = 0;
    let mut j: usize = 0;
    let mut found = false;
    proof {
        assert(tokens.skip(0) =~= tokens);
    }
    while j < n
        invariant_except_break
            !found,
            command_index == 0,
            first_index_of(tokens, command_name@) == (match first_index_of(
                tokens.skip(j as int),
                command_name@,
            ) {
                Some(k) => Some(k + j),
                None => None::<int>,
            }),
        invariant
            n == env_args.len(),
            tokens == env_args.deep_view(),
            j <= n,
        ensures
            command_index as int == spec_command_index(tokens, command_name@),
        decreases n - j,
    {
        proof {
            assert(tokens.skip(j as int)[0] == tokens[j as int]);
            assert(tokens.skip(j as int).skip(1) =~= tokens.skip(j as int + 1));
        }
        if str_eq(env_args[j].as_str(), command_name) {
            proof {
                assert(tokens[j as int] == command_name@);
                assert(first_index_of(tokens.skip(j as int), command_name@) == Some(0int));
            }
            found = true;
            command_index = j;
            break ;
        }
        j += 1;
    }

    let mut kept: Vec<String> = Vec::new();
    let mut i: usize = 0;
    proof {
        assert(kept.deep_view() + spec_retained_from(tokens, 0, command_index as int)
            =~= spec_retained_from(tokens, 0, command_index as int));
    }
    while i < n
        invariant
            n == env_args.len(),
            tokens == env_args.deep_view(),
            i <= n,
            spec_retained(tokens, command_name@) == kept.deep_view() + spec_retained_from(
                tokens.skip(i as int),
                i as int,
                command_index as int,
            ),
        decreases n - i,
    {
        let arg = &env_args[i];
        proof {
            assert(tokens.skip(i as int)[0] == tokens[i as int]);
            assert(tokens.skip(i as int).skip(1) =~= tokens.skip(i as int + 1));
            assert(tokens[i as int] == arg@);
        }
        let ghost kept0 = kept.deep_view();
        let ghost rest = spec_retained_from(tokens.skip(i as int + 1), i as int + 1, command_index as int);
        if is_dash_token(arg.as_str()) || i > command_index {
            kept.push(arg.clone());
            proof {
                assert(kept.deep_view() =~= kept0.push(arg@));
                assert(kept0 + (seq![tokens[i as int]] + rest) =~= kept0.push(arg@) + rest);
            }
        }
        i += 1;
    }
    proof {
        assert(tokens.skip(n as int) =~= Seq::<Seq<char>>::empty());
        assert(kept.deep_view() + Seq::<Seq<char>>::empty() =~= kept.deep_view());
    }
    kept
}

/// Whether some binding carries `key`.
pub open spec fn binding_has_key(bound: Seq<(Seq<char>, Option<Seq<char>>)>, key: Seq<char>) -> bool {
    exists|i: int| 0 <= i < bound.len() && bound[i].0 == key
}

/// The name of the first non-optional child for which no binding carries
/// its name as a key, if any: the only fatal condition of the pipeline.
pub open spec fn first_missing_required<A>(
    children: Seq<CliCommand<A>>,
    bound: Seq<(Seq<char>, Option<Seq<char>>)>,
) -> Option<Seq<char>>
    decreases children.len(),
{
    if children.len() == 0 {
        None
    } else if !children[0].optional && !binding_has_key(bound, children[0].name@) {
        Some(children[0].name@)
    } else {
        first_missing_required(children.skip(1), bound)
    }
}

/// Checks that every required child of the active command was named by a
/// binding, and reports the first one that was not.
pub fn missing_required_child<A>(
    command: &CliCommand<A>,
    bindings: &Vec<(String, Option<String>)>,
) -> (r: Option<String>)
    ensures
        match r {
            Some(name) => first_missing_required(command.subcommands@, bindings.deep_view())
                == Some(name@),
            None => first_missing_required(command.subcommands@, bindings.deep_view()) is None,
        },
{
    let ghost bound = bindings.deep_view();
    let n = command.subcommands.len();
    let mut i: usize = 0;
    proof {
        assert(command.subcommands@.skip(0) =~= command.subcommands@);
    }
    while i < n
        invariant
            n == command.subcommands.len(),
            bound == bindings.deep_view(),
            i <= n,
            first_missing_required(command.subcommands@, bound) == first_missing_required(
                command.subcommands@.skip(i as int),
                bound,
            ),
        decreases n - i,
    {
        let child = &command.subcommands[i];
        proof {
            assert(command.subcommands@.skip(i as int)[0] == command.subcommands@[i as int]);
            assert(command.subcommands@.skip(i as int).skip(1) =~= command.subcommands@.skip(
                i as int + 1,
            ));
        }
        if !child.optional {
            let mut present = false;
            let m = bindings.len();
            let mut k: usize = 0;
            while k < m
                invariant
                    m == bindings.len(),
                    bound == bindings.deep_view(),
                    k <= m,
                    present <==> exists|j: int| 0 <= j < k && bound[j].0 == child.name@,
                decreases m - k,
            {
                if str_eq(bindings[k].0.as_str(), child.name.as_str()) {
                    proof {
                        assert(bound[k as int].0 == child.name@);
                    }
                    present = true;
                }
                k += 1;
            }
            if !present {
                return Some(child.name.clone());
            }
        }
        i += 1;
    }
    proof {
        assert(command.subcommands@.skip(n as int) =~= Seq::<CliCommand<A>>::empty());
    }
    None
}

} // verus!
