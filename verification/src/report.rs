//! The single lines of output the builtins produce, each built exactly as
//! its specification states it.

use vstd::prelude::*;

use crate::builtins::is_builtin;
use crate::builtins::is_builtin_name;
use crate::text::concat2;
use crate::text::concat3;

verus! {

/// The arguments joined by single spaces: what echo prints.
pub open spec fn join_spaced(ts: Seq<Seq<char>>) -> Seq<char>
    decreases ts.len(),
{
    if ts.len() == 0 {
        Seq::empty()
    } else if ts.len() == 1 {
        ts[0]
    } else {
        ts[0] + seq![' '] + join_spaced(ts.drop_first())
    }
}

/// Joining one more argument appends one space and that argument.
pub proof fn lemma_join_spaced_push(ts: Seq<Seq<char>>, t: Seq<char>)
    ensures
        join_spaced(ts.push(t)) == if ts.len() == 0 {
            t
        } else {
            join_spaced(ts) + seq![' '] + t
        },
    decreases ts.len(),
{
    let p = ts.push(t);
    if ts.len() == 0 {
        assert(p[0] == t);
    } else {
        assert(p[0] == ts[0]);
        assert(p.drop_first() =~~= ts.drop_first().push(t));
        lemma_join_spaced_push(ts.drop_first(), t);
        if ts.len() == 1 {
            assert(join_spaced(p) == ts[0] + seq![' '] + t);
        } else {
            assert(ts[0] + seq![' '] + (join_spaced(ts.drop_first()) + seq![' '] + t) =~= (ts[0]
                + seq![' '] + join_spaced(ts.drop_first())) + seq![' '] + t);
        }
    }
}

/// The echo line: all arguments joined by a single space.
pub fn echo_line(args: &Vec<String>) -> (r: String)
    ensures
        r@ == join_spaced(args.deep_view()),
{
    let mut r = String::new();
    let mut i: usize = 0;
    proof {
        assert(args.deep_view().take(0) =~~= Seq::<Seq<char>>::empty());
    }
    while i < args.len()
        invariant
            i <= args@.len(),
            r@ == join_spaced(args.deep_view().take(i as int)),
        decreases args@.len() - i,
    {
        let ghost dv = args.deep_view();
        let ghost r0 = r@;
        if i > 0 {
            r.append(" ");
        }
        r.append(args[i].as_str());
        proof {
            reveal_strlit(" ");
            assert(" "@ =~= seq![' ']);
            assert(dv[i as int] == args@[i as int]@);
            assert(dv.take(i + 1) =~~= dv.take(i as int).push(dv[i as int]));
            lemma_join_spaced_push(dv.take(i as int), dv[i as int]);
            if i == 0 {
                assert(r@ =~= dv[0]);
            }
        }
        i += 1;
    }
    proof {
        assert(args.deep_view().take(args@.len() as int) =~~= args.deep_view());
    }
    r
}

/// The type builtin's report for `name`, given the full path a search of
/// the path resolved for it, if any. A builtin name is reported as a
/// builtin whatever the search said.
pub open spec fn type_report(name: Seq<char>, search: Option<Seq<char>>) -> Seq<char> {
    if is_builtin_name(name) {
        name + " is a shell builtin"@
    } else {
        match search {
            Some(path) => name + " is "@ + path,
            None => name + ": not found"@,
        }
    }
}

/// Builds the type builtin's one line of output.
pub fn type_line(name: &str, search: &Option<String>) -> (r: String)
    ensures
        r@ == type_report(name@, search.deep_view()),
{
    if is_builtin(name) {
        concat2(name, " is a shell builtin")
    } else {
        match search {
            Some(path) => concat3(name, " is ", path.as_str()),
            None => concat2(name, ": not found"),
        }
    }
}

/// The report for a name that resolves to no command.
pub open spec fn not_found_report(name: Seq<char>) -> Seq<char> {
    name + ": command not found"@
}

/// Builds the line reporting an unknown or failed command.
pub fn command_not_found_line(name: &str) -> (r: String)
    ensures
        r@ == not_found_report(name@),
{
    concat2(name, ": command not found")
}

/// The report for a directory change that the surroundings refused.
pub open spec fn cd_error_report(path: Seq<char>) -> Seq<char> {
    "cd: "@ + path + ": No such file or directory"@
}

/// Builds the line reporting a failed directory change.
pub fn cd_error_line(path: &str) -> (r: String)
    ensures
        r@ == cd_error_report(path@),
{
    concat3("cd: ", path, ": No such file or directory")
}

} // verus!
