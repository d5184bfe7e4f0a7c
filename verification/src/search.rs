//! Search-path resolution: splitting the colon-separated search path into
//! directories, forming the candidate path for a command in each directory,
//! and picking the first candidate that the surroundings reported as
//! existing. The filesystem itself is consulted by the caller; this module
//! only decides, and its decisions are proved.

use vstd::prelude::*;

verus! {

/// Length of the prefix of `s` before its first colon.
pub open spec fn field_len(s: Seq<char>) -> nat
    decreases s.len(),
{
    if s.len() == 0 || s[0] == ':' {
        0
    } else {
        1 + field_len(s.drop_first())
    }
}

pub proof fn lemma_field_len_le(s: Seq<char>)
    ensures
        field_len(s) <= s.len(),
    decreases s.len(),
{
    if s.len() != 0 && s[0] != ':' {
        lemma_field_len_le(s.drop_first());
    }
}

/// The colon-separated fields of `s`, in order; empty fields are kept, and
/// the empty string has one empty field.
pub open spec fn split_colon(s: Seq<char>) -> Seq<Seq<char>>
    decreases s.len(),
    via split_colon_dec
{
    if field_len(s) == s.len() {
        seq![s]
    } else {
        seq![s.take(field_len(s) as int)] + split_colon(s.skip(field_len(s) as int + 1))
    }
}

#[via_fn]
proof fn split_colon_dec(s: Seq<char>) {
    lemma_field_len_le(s);
}

/// If the first `k` characters of `s` are not colons and the character at
/// `k` (when there is one) is a colon, the first field is exactly `k`
/// characters long.
pub proof fn lemma_field_len_is(s: Seq<char>, k: nat)
    requires
        k <= s.len(),
        forall|j: int| 0 <= j < k ==> s[j] != ':',
        k == s.len() || s[k as int] == ':',
    ensures
        field_len(s) == k,
    decreases k,
{
    if k != 0 {
        let t = s.drop_first();
        assert forall|j: int| 0 <= j < k - 1 implies t[j] != ':' by {
            assert(t[j] == s[j + 1]);
        }
        if k < s.len() {
            assert(t[k - 1] == s[k as int]);
        }
        lemma_field_len_is(t, (k - 1) as nat);
    }
}

/// Splits `s` on colons into its fields, in order, keeping empty fields.
pub fn split_path(s: &str) -> (r: Vec<String>)
    ensures
        r.deep_view() == split_colon(s@),
{
    let n = s.unicode_len();
    let mut r: Vec<String> = Vec::new();
    let mut i: usize = 0;
    proof {
        assert(s@.skip(0) =~= s@);
        assert(r.deep_view() + split_colon(s@) =~~= split_colon(s@));
    }
    loop
        invariant_except_break
            n == s@.len(),
            i <= n,
            r.deep_view() + split_colon(s@.skip(i as int)) =~~= split_colon(s@),
        ensures
            r.deep_view() =~~= split_colon(s@),
        decreases n - i,
    {
        let mut j: usize = i;
        loop
            invariant
                n == s@.len(),
                i <= j <= n,
                forall|m: int| i <= m < j ==> s@[m] != ':',
            ensures
                i <= j <= n,
                forall|m: int| i <= m < j ==> s@[m] != ':',
                j == n || s@[j as int] == ':',
            decreases n - j,
        {
            if j == n {
                break;
            }
            if s.get_char(j) == ':' {
                break;
            }
            j += 1;
        }
        let field = s.substring_char(i, j);
        let ghost r0 = r.deep_view();
        r.push(String::from_str(field));
        proof {
            let si = s@.skip(i as int);
            let k = (j - i) as nat;
            assert forall|m: int| 0 <= m < k implies si[m] != ':' by {
                assert(si[m] == s@[i + m]);
            }
            if j < n {
                assert(si[k as int] == s@[j as int]);
            }
            lemma_field_len_is(si, k);
            assert(si.take(k as int) =~= s@.subrange(i as int, j as int));
            assert(r.deep_view() =~~= r0.push(field@));
        }
        if j == n {
            proof {
                let si = s@.skip(i as int);
                assert(si =~= s@.subrange(i as int, j as int));
                assert(split_colon(si) == seq![si]);
                assert(r.deep_view() =~~= split_colon(s@));
            }
            break;
        }
        proof {
            let si = s@.skip(i as int);
            let k = (j - i) as nat;
            assert(split_colon(si) == seq![si.take(k as int)] + split_colon(
                si.skip(k as int + 1),
            ));
            assert(si.skip(k as int + 1) =~= s@.skip(j + 1));
            assert(r.deep_view() + split_colon(s@.skip(j + 1)) =~~= split_colon(s@));
        }
        i = j + 1;
    }
    r
}

/// The candidate full path for command `name` in directory `dir`.
pub open spec fn candidate_of(dir: Seq<char>, name: Seq<char>) -> Seq<char> {
    dir + "/"@ + name
}

/// The candidate full paths for `name` in each directory of the search
/// path `path_var`, in search order.
pub open spec fn candidates_of(path_var: Seq<char>, name: Seq<char>) -> Seq<Seq<char>> {
    split_colon(path_var).map_values(|d: Seq<char>| candidate_of(d, name))
}

/// Builds `dir + "/" + name`.
pub fn candidate_path(dir: &str, name: &str) -> (r: String)
    ensures
        r@ == candidate_of(dir@, name@),
{
    let mut r = String::from_str(dir);
    r.append("/");
    r.append(name);
    r
}

/// The candidate full paths for `name`, one per directory of `path_var`,
/// in search order.
pub fn path_candidates(path_var: &str, name: &str) -> (r: Vec<String>)
    ensures
        r.deep_view() == candidates_of(path_var@, name@),
{
    let dirs = split_path(path_var);
    let mut r: Vec<String> = Vec::new();
    let mut i: usize = 0;
    while i < dirs.len()
        invariant
            r.deep_view().len() == i,
            i <= dirs.len(),
            dirs.deep_view() == split_colon(path_var@),
            forall|m: int|
                0 <= m < i ==> r.deep_view()[m] == candidate_of(
                    dirs.deep_view()[m],
                    name@,
                ),
        decreases dirs.len() - i,
    {
        let ghost r0 = r.deep_view();
        let c = candidate_path(dirs[i].as_str(), name);
        r.push(c);
        proof {
            assert(r.deep_view() =~~= r0.push(c@));
            assert(dirs.deep_view()[i as int] == dirs@[i as int]@);
        }
        i += 1;
    }
    proof {
        assert(r.deep_view() =~~= candidates_of(path_var@, name@));
    }
    r
}

/// The first candidate whose existence flag is set, scanning in order;
/// `None` when no flag is set. The two sequences are walked in step.
pub open spec fn first_match(cands: Seq<Seq<char>>, exists: Seq<bool>) -> Option<Seq<char>>
    decreases cands.len(),
{
    if cands.len() == 0 || exists.len() == 0 {
        None
    } else if exists[0] {
        Some(cands[0])
    } else {
        first_match(cands.drop_first(), exists.drop_first())
    }
}

/// The first match is the candidate at the first set flag: if position `i`
/// is the earliest set flag, the search yields exactly `cands[i]`.
pub proof fn lemma_first_match_at(cands: Seq<Seq<char>>, exists: Seq<bool>, i: int)
    requires
        cands.len() == exists.len(),
        0 <= i < exists.len(),
        exists[i],
        forall|j: int| 0 <= j < i ==> !exists[j],
    ensures
        first_match(cands, exists) == Some(cands[i]),
    decreases i,
{
    if i > 0 {
        let ct = cands.drop_first();
        let et = exists.drop_first();
        assert forall|j: int| 0 <= j < i - 1 implies !et[j] by {
            assert(et[j] == exists[j + 1]);
        }
        assert(et[i - 1] == exists[i]);
        lemma_first_match_at(ct, et, i - 1);
    }
}

/// When no flag is set, the search yields nothing.
pub proof fn lemma_first_match_none(cands: Seq<Seq<char>>, exists: Seq<bool>)
    requires
        forall|j: int| 0 <= j < exists.len() ==> !exists[j],
    ensures
        first_match(cands, exists) is None,
    decreases cands.len(),
{
    if cands.len() != 0 && exists.len() != 0 {
        let et = exists.drop_first();
        assert forall|j: int| 0 <= j < et.len() implies !et[j] by {
            assert(et[j] == exists[j + 1]);
        }
        lemma_first_match_none(cands.drop_first(), et);
    }
}

/// Picks the first candidate marked as existing, in order: the resolved
/// full path of an external command. The caller supplies one existence
/// flag per candidate, as the filesystem reported them.
pub fn resolve_external(candidates: Vec<String>, exists: &Vec<bool>) -> (r: Option<String>)
    requires
        candidates@.len() == exists@.len(),
    ensures
        match r {
            Some(p) => first_match(candidates.deep_view(), exists@) == Some(p@),
            None => first_match(candidates.deep_view(), exists@) is None,
        },
{
    let ghost cands = candidates.deep_view();
    let mut i: usize = 0;
    proof {
        assert(cands.skip(0) =~~= cands);
        assert(exists@.skip(0) =~= exists@);
    }
    while i < exists.len()
        invariant
            candidates@.len() == exists@.len(),
            i <= exists@.len(),
            cands == candidates.deep_view(),
            first_match(cands.skip(i as int), exists@.skip(i as int)) == first_match(
                cands,
                exists@,
            ),
        decreases exists@.len() - i,
    {
        proof {
            assert(cands.skip(i as int)[0] == cands[i as int]);
            assert(exists@.skip(i as int)[0] == exists@[i as int]);
        }
        if exists[i] {
            let p = candidates[i].clone();
            proof {
                assert(p@ == cands[i as int]);
            }
            return Some(p);
        }
        proof {
            assert(cands.skip(i as int).drop_first() =~= cands.skip(i + 1));
            assert(exists@.skip(i as int).drop_first() =~= exists@.skip(i + 1));
        }
        i += 1;
    }
    proof {
        assert(cands.skip(exists@.len() as int).len() == 0);
    }
    None
}

/// The full search for one command name: form the candidates for
/// `path_var` and pick the first that its flag marks as existing. The
/// caller computes the flags, one per candidate of
/// `candidates_of(path_var@, name@)`, by asking the filesystem.
pub fn search_in_path(path_var: &str, name: &str, exists: &Vec<bool>) -> (r: Option<String>)
    requires
        exists@.len() == candidates_of(path_var@, name@).len(),
    ensures
        match r {
            Some(p) => first_match(candidates_of(path_var@, name@), exists@) == Some(p@),
            None => first_match(candidates_of(path_var@, name@), exists@) is None,
        },
{
    let candidates = path_candidates(path_var, name);
    proof {
        assert(candidates@.len() == candidates.deep_view().len());
    }
    resolve_external(candidates, exists)
}

} // verus!
