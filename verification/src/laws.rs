//! The library's general laws, each stated over the specification
//! functions the contracts use and proved once for all inputs.

use vstd::prelude::*;

use crate::builtins::is_builtin_name;
use crate::command_handler::Action;
use crate::command_handler::Env;
use crate::command_handler::Handler;
use crate::command_handler::plan_spec;
use crate::command_handler::resolves_to;
use crate::parse::int_literal_val;
use crate::parse::is_int_literal;
use crate::report::join_spaced;
use crate::report::not_found_report;
use crate::report::type_report;
use crate::search::candidate_of;
use crate::search::candidates_of;
use crate::search::first_match;
use crate::search::lemma_first_match_at;
use crate::search::lemma_first_match_none;
use crate::search::split_colon;
use crate::tokenize::all_space;
use crate::tokenize::is_space;
use crate::tokenize::lemma_tokens_of_token_prefix;
use crate::tokenize::lemma_tokens_of_ws_prefix;
use crate::tokenize::space_free;
use crate::tokenize::tokens_of;

verus! {

/// A builtin name is reported as a shell builtin whatever a search of the
/// path produced.
pub proof fn lemma_type_builtin(name: Seq<char>, search: Option<Seq<char>>)
    requires
        is_builtin_name(name),
    ensures
        type_report(name, search) == name + " is a shell builtin"@,
{
}

/// `type` on a builtin name decides the builtin report whatever the
/// surroundings hold.
pub proof fn lemma_type_builtin_planned(args: Seq<Seq<char>>, env: Env, r: Action)
    requires
        args.len() >= 1,
        is_builtin_name(args[0]),
        plan_spec(Handler::Type, args, env, r),
    ensures
        r matches Action::Print { line } && line@ == args[0] + " is a shell builtin"@,
{
}

/// A name that is neither a builtin nor present in any search-path
/// directory resolves to nothing, is reported as not found by `type`,
/// and its dispatch prints the not-found report — it never spawns a
/// process.
pub proof fn lemma_unknown_name(
    path_var: Seq<char>,
    name: Seq<char>,
    exists: Seq<bool>,
    h: Handler,
    args: Seq<Seq<char>>,
    env: Env,
    r: Action,
)
    requires
        !is_builtin_name(name),
        exists.len() == candidates_of(path_var, name).len(),
        forall|j: int| 0 <= j < exists.len() ==> !exists[j],
        resolves_to(name, first_match(candidates_of(path_var, name), exists) is Some, h),
        plan_spec(h, args, env, r),
    ensures
        first_match(candidates_of(path_var, name), exists) is None,
        type_report(name, None) == name + ": not found"@,
        r matches Action::Print { line } && line@ == not_found_report(name),
        !(r is Spawn),
{
    lemma_first_match_none(candidates_of(path_var, name), exists);
}

/// A command line written with any separator runs: after each token one
/// run of separators, every run between two tokens non-empty, possibly
/// none after the last.
pub open spec fn interleave(ts: Seq<Seq<char>>, seps: Seq<Seq<char>>) -> Seq<char>
    decreases ts.len(),
{
    if ts.len() == 0 {
        Seq::empty()
    } else {
        ts[0] + seps[0] + interleave(ts.drop_first(), seps.drop_first())
    }
}

/// Tokenizing gives the tokens back whatever separator runs stood between
/// them: what echo prints is decided by the tokens alone, not by how much
/// whitespace separated them.
pub proof fn lemma_tokenize_interleave(ts: Seq<Seq<char>>, seps: Seq<Seq<char>>)
    requires
        seps.len() == ts.len(),
        forall|i: int| 0 <= i < ts.len() ==> (#[trigger] ts[i]).len() > 0 && space_free(ts[i]),
        forall|i: int| 0 <= i < seps.len() ==> all_space(#[trigger] seps[i]),
        forall|i: int| 0 <= i < ts.len() - 1 ==> (#[trigger] seps[i]).len() > 0,
    ensures
        tokens_of(interleave(ts, seps)) == ts,
    decreases ts.len(),
{
    if ts.len() > 0 {
        let rest = interleave(ts.drop_first(), seps.drop_first());
        let tail = seps[0] + rest;
        assert((ts[0] + seps[0]) + rest =~= ts[0] + tail);
        assert forall|i: int| 0 <= i < ts.drop_first().len() implies (#[trigger] ts.drop_first()[i]).len()
            > 0 && space_free(ts.drop_first()[i]) by {
            assert(ts.drop_first()[i] == ts[i + 1]);
        }
        assert forall|i: int| 0 <= i < seps.drop_first().len() implies all_space(
            #[trigger] seps.drop_first()[i],
        ) by {
            assert(seps.drop_first()[i] == seps[i + 1]);
        }
        assert forall|i: int| 0 <= i < ts.drop_first().len() - 1 implies (#[trigger] seps.drop_first()[i]).len()
            > 0 by {
            assert(seps.drop_first()[i] == seps[i + 1]);
        }
        lemma_tokenize_interleave(ts.drop_first(), seps.drop_first());
        if ts.len() == 1 {
            assert(rest =~= Seq::<char>::empty());
            assert(tail =~= seps[0]);
            if seps[0].len() == 0 {
                assert(tail.len() == 0);
            } else {
                assert(is_space(tail[0]));
            }
        } else {
            assert(seps[0].len() > 0);
            assert(tail[0] == seps[0][0]);
        }
        lemma_tokens_of_token_prefix(ts[0], tail);
        lemma_tokens_of_ws_prefix(seps[0], rest);
        assert(seq![ts[0]] + ts.drop_first() =~~= ts);
    }
}

/// Tokenizing the single-space join of tokens — the very line echo prints
/// — gives the tokens back.
pub proof fn lemma_tokenize_join(ts: Seq<Seq<char>>)
    requires
        forall|i: int| 0 <= i < ts.len() ==> (#[trigger] ts[i]).len() > 0 && space_free(ts[i]),
    ensures
        tokens_of(join_spaced(ts)) == ts,
    decreases ts.len(),
{
    if ts.len() == 0 {
    } else if ts.len() == 1 {
        lemma_tokens_of_token_prefix(ts[0], Seq::empty());
        assert(ts[0] + Seq::<char>::empty() =~= ts[0]);
        assert(seq![ts[0]] + tokens_of(Seq::<char>::empty()) =~~= ts);
    } else {
        let rest = join_spaced(ts.drop_first());
        let tail = seq![' '] + rest;
        assert((ts[0] + seq![' ']) + rest =~= ts[0] + tail);
        assert(is_space(tail[0]));
        assert forall|i: int| 0 <= i < ts.drop_first().len() implies (#[trigger] ts.drop_first()[i]).len()
            > 0 && space_free(ts.drop_first()[i]) by {
            assert(ts.drop_first()[i] == ts[i + 1]);
        }
        lemma_tokenize_join(ts.drop_first());
        lemma_tokens_of_token_prefix(ts[0], tail);
        lemma_tokens_of_ws_prefix(seq![' '], rest);
        assert(seq![ts[0]] + ts.drop_first() =~~= ts);
    }
}

/// `cd ~` decides the same directory change as `cd` to the home value
/// itself.
pub proof fn lemma_cd_home(
    args_tilde: Seq<Seq<char>>,
    args_home: Seq<Seq<char>>,
    env: Env,
    r1: Action,
    r2: Action,
)
    requires
        env.home is Some,
        args_tilde.len() >= 1,
        args_tilde[0] == "~"@,
        args_home.len() >= 1,
        args_home[0] == env.home->0@,
        plan_spec(Handler::ChangeDirectory, args_tilde, env, r1),
        plan_spec(Handler::ChangeDirectory, args_home, env, r2),
    ensures
        r1 matches Action::ChangeDir { path: p1 } && r2 matches Action::ChangeDir { path: p2 }
            && p1@ == p2@,
{
}

/// The first directory of the search path that holds the name wins: with
/// the flag at position `i` the earliest set, the search resolves to the
/// candidate formed in the `i`th directory.
pub proof fn lemma_path_order(path_var: Seq<char>, name: Seq<char>, exists: Seq<bool>, i: int)
    requires
        exists.len() == candidates_of(path_var, name).len(),
        0 <= i < exists.len(),
        exists[i],
        forall|j: int| 0 <= j < i ==> !exists[j],
    ensures
        first_match(candidates_of(path_var, name), exists) == Some(
            candidate_of(split_colon(path_var)[i], name),
        ),
{
    lemma_first_match_at(candidates_of(path_var, name), exists, i);
}

/// An exit request with a well-formed code in range decides termination
/// with exactly that code, and nothing else.
pub proof fn lemma_exit_code(args: Seq<Seq<char>>, env: Env, r: Action)
    requires
        args.len() >= 1,
        is_int_literal(args[0]),
        i32::MIN <= int_literal_val(args[0]) <= i32::MAX,
        plan_spec(Handler::Exit, args, env, r),
    ensures
        r matches Action::ExitProcess { code } && code as int == int_literal_val(args[0]),
{
}

} // verus!
