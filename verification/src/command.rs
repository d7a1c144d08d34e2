//! The command line of the `cargo llvm-cov` run whose output is analyzed.

use vstd::prelude::*;
use vstd::slice::slice_subrange;

use crate::views::views;

verus! {

/// Whether an argument selects a toolchain: a `+` and a name after it.
pub open spec fn names_toolchain(arg: Seq<char>) -> bool {
    arg.len() >= 2 && arg[0] == '+'
}

/// Whether the first of the user's arguments selects a toolchain.
pub open spec fn selects_toolchain(user_args: Seq<Seq<char>>) -> bool {
    user_args.len() > 0 && names_toolchain(user_args[0])
}

/// The words that start cargo: `cargo`, and the toolchain if the user
/// selected one.
pub open spec fn cargo_words(user_args: Seq<Seq<char>>) -> Seq<Seq<char>> {
    if selects_toolchain(user_args) {
        seq!["cargo"@, user_args[0]]
    } else {
        seq!["cargo"@]
    }
}

/// The user's arguments without the toolchain.
pub open spec fn forwarded_words(user_args: Seq<Seq<char>>) -> Seq<Seq<char>> {
    if selects_toolchain(user_args) {
        user_args.skip(1)
    } else {
        user_args
    }
}

/// The words after cargo's own: the subcommand of `llvm-cov`, the flag that
/// asks for JSON, and what the user forwards.
pub open spec fn llvm_cov_words(subcommand: Seq<char>, user_args: Seq<Seq<char>>) -> Seq<
    Seq<char>,
> {
    seq!["llvm-cov"@, subcommand, "--json"@] + forwarded_words(user_args)
}

/// Splits a `+toolchain` prefix from the user args, if present.
///
/// Returns the cargo args (`["cargo"]` or `["cargo", "+nightly"]`) and the
/// remaining args.
pub fn split_toolchain<'a>(user_args: &'a [String]) -> (parts: (Vec<&'a str>, &'a [String]))
    ensures
        views(parts.0@) == cargo_words(views(user_args@)),
        views(parts.1@) == forwarded_words(views(user_args@)),
        parts.1@ == if selects_toolchain(views(user_args@)) {
            user_args@.skip(1)
        } else {
            user_args@
        },
{
    if user_args.len() > 0 {
        let first = user_args[0].as_str();
        // A bare `+` names no toolchain.
        if first.unicode_len() >= 2 && first.get_char(0) == '+' {
            let cargo_args: Vec<&'a str> = vec!["cargo", first];
            let rest = slice_subrange(user_args, 1, user_args.len());
            assert(rest@ == user_args@.skip(1));
            assert(views(cargo_args@) == cargo_words(views(user_args@)));
            assert(views(rest@) == views(user_args@).skip(1));
            return (cargo_args, rest);
        }
    }
    let cargo_args: Vec<&'a str> = vec!["cargo"];
    assert(views(cargo_args@) == cargo_words(views(user_args@)));
    (cargo_args, user_args)
}

/// Builds the argument list for a `cargo llvm-cov` invocation.
pub fn build_cargo_llvm_cov_args<'a>(subcommand: &'a str, user_args: &'a [String]) -> (parts: (
    Vec<&'a str>,
    Vec<&'a str>,
))
    ensures
        views(parts.0@) == cargo_words(views(user_args@)),
        views(parts.1@) == llvm_cov_words(subcommand@, views(user_args@)),
{
    let (cargo_args, remaining) = split_toolchain(user_args);
    let mut args: Vec<&'a str> = vec!["llvm-cov", subcommand, "--json"];
    let ghost head = views(args@);
    assert(head == seq!["llvm-cov"@, subcommand@, "--json"@]);
    let mut i: usize = 0;
    while i < remaining.len()
        invariant
            i <= remaining.len(),
            views(args@) == head + views(remaining@).take(i as int),
        decreases remaining.len() - i,
    {
        let ghost before = views(args@);
        args.push(remaining[i].as_str());
        assert(views(args@) == before.push(remaining@[i as int]@));
        assert(views(remaining@).take(i + 1) == views(remaining@).take(i as int).push(
            remaining@[i as int]@,
        ));
        i = i + 1;
    }
    assert(views(remaining@).take(remaining@.len() as int) == views(remaining@));
    (cargo_args, args)
}

} // verus!
