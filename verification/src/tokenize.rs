//! Whitespace tokenization of a command line, with its mathematical model:
//! the tokens of a string are its maximal runs of non-separator characters,
//! in order.

use vstd::prelude::*;

verus! {

/// The characters treated as token separators.
pub open spec fn is_space(c: char) -> bool {
    c == ' ' || c == '\t' || c == '\n' || c == '\r' || c == '\u{b}' || c == '\u{c}'
}

/// Length of the maximal non-separator prefix of `s`.
pub open spec fn token_len(s: Seq<char>) -> nat
    decreases s.len(),
{
    if s.len() == 0 || is_space(s[0]) {
        0
    } else {
        1 + token_len(s.drop_first())
    }
}

pub proof fn lemma_token_len_le(s: Seq<char>)
    ensures
        token_len(s) <= s.len(),
    decreases s.len(),
{
    if s.len() != 0 && !is_space(s[0]) {
        lemma_token_len_le(s.drop_first());
    }
}

/// The tokens of `s`: the maximal runs of non-separator characters, in order.
pub open spec fn tokens_of(s: Seq<char>) -> Seq<Seq<char>>
    decreases s.len(),
    via tokens_of_dec
{
    if s.len() == 0 {
        Seq::empty()
    } else if is_space(s[0]) {
        tokens_of(s.drop_first())
    } else {
        seq![s.take(token_len(s) as int)] + tokens_of(s.skip(token_len(s) as int))
    }
}

#[via_fn]
proof fn tokens_of_dec(s: Seq<char>) {
    if s.len() != 0 && !is_space(s[0]) {
        lemma_token_len_le(s);
    }
}

/// If the first `k` characters of `s` are non-separators and the character
/// at `k` (when there is one) is a separator, the first token is exactly
/// `k` characters long.
pub proof fn lemma_token_len_is(s: Seq<char>, k: nat)
    requires
        k <= s.len(),
        forall|j: int| 0 <= j < k ==> !is_space(s[j]),
        k == s.len() || is_space(s[k as int]),
    ensures
        token_len(s) == k,
    decreases k,
{
    if k == 0 {
    } else {
        let t = s.drop_first();
        assert forall|j: int| 0 <= j < k - 1 implies !is_space(t[j]) by {
            assert(t[j] == s[j + 1]);
        }
        if k < s.len() {
            assert(t[k - 1] == s[k as int]);
        }
        lemma_token_len_is(t, (k - 1) as nat);
    }
}

/// True when every character of `s` is a separator.
pub open spec fn all_space(s: Seq<char>) -> bool {
    forall|i: int| 0 <= i < s.len() ==> is_space(s[i])
}

/// True when no character of `s` is a separator.
pub open spec fn space_free(s: Seq<char>) -> bool {
    forall|i: int| 0 <= i < s.len() ==> !is_space(s[i])
}

/// Leading separators do not change the tokens.
pub proof fn lemma_tokens_of_ws_prefix(ws: Seq<char>, s: Seq<char>)
    requires
        all_space(ws),
    ensures
        tokens_of(ws + s) == tokens_of(s),
    decreases ws.len(),
{
    if ws.len() == 0 {
        assert(ws + s =~= s);
    } else {
        let c = ws + s;
        assert(c[0] == ws[0]);
        assert(tokens_of(c) == tokens_of(c.drop_first()));
        assert(c.drop_first() =~= ws.drop_first() + s);
        assert forall|i: int| 0 <= i < ws.drop_first().len() implies is_space(
            ws.drop_first()[i],
        ) by {
            assert(ws.drop_first()[i] == ws[i + 1]);
        }
        lemma_tokens_of_ws_prefix(ws.drop_first(), s);
    }
}

/// A leading separator-free run followed by a separator, or by nothing,
/// is split off whole as the first token.
pub proof fn lemma_tokens_of_token_prefix(t: Seq<char>, s: Seq<char>)
    requires
        t.len() > 0,
        space_free(t),
        s.len() == 0 || is_space(s[0]),
    ensures
        tokens_of(t + s) == seq![t] + tokens_of(s),
{
    let c = t + s;
    assert forall|j: int| 0 <= j < t.len() implies !is_space(c[j]) by {
        assert(c[j] == t[j]);
    }
    if s.len() > 0 {
        assert(c[t.len() as int] == s[0]);
    }
    lemma_token_len_is(c, t.len());
    assert(!is_space(c[0]));
    assert(tokens_of(c) == seq![c.take(t.len() as int)] + tokens_of(c.skip(t.len() as int)));
    assert(c.take(t.len() as int) =~= t);
    assert(c.skip(t.len() as int) =~= s);
}

/// True when `c` separates tokens.
pub fn is_space_char(c: char) -> (r: bool)
    ensures
        r == is_space(c),
{
    c == ' ' || c == '\t' || c == '\n' || c == '\r' || c == '\u{b}' || c == '\u{c}'
}

/// Splits `s` on runs of separator characters into its tokens, in order.
pub fn tokenize(s: &str) -> (r: Vec<String>)
    ensures
        r.deep_view() == tokens_of(s@),
{
    let n = s.unicode_len();
    let mut r: Vec<String> = Vec::new();
    let mut i: usize = 0;
    proof {
        assert(s@.skip(0) =~= s@);
        assert(r.deep_view() + tokens_of(s@) =~~= tokens_of(s@));
    }
    while i < n
        invariant
            n == s@.len(),
            i <= n,
            r.deep_view() + tokens_of(s@.skip(i as int)) =~~= tokens_of(s@),
        decreases n - i,
    {
        let c = s.get_char(i);
        if is_space_char(c) {
            proof {
                let si = s@.skip(i as int);
                assert(si.len() > 0 && is_space(si[0]));
                assert(si.drop_first() =~= s@.skip(i + 1));
                assert(tokens_of(si) == tokens_of(s@.skip(i + 1)));
            }
            i += 1;
        } else {
            let mut j: usize = i + 1;
            loop
                invariant
                    n == s@.len(),
                    i < j <= n,
                    forall|m: int| i <= m < j ==> !is_space(s@[m]),
                ensures
                    i < j <= n,
                    forall|m: int| i <= m < j ==> !is_space(s@[m]),
                    j == n || is_space(s@[j as int]),
                decreases n - j,
            {
                if j == n {
                    break;
                }
                let cj = s.get_char(j);
                if is_space_char(cj) {
                    break;
                }
                j += 1;
            }
            let tok = s.substring_char(i, j);
            let tok_string = String::from_str(tok);
            let ghost r0 = r.deep_view();
            r.push(tok_string);
            proof {
                let si = s@.skip(i as int);
                let k = (j - i) as nat;
                assert forall|m: int| 0 <= m < k implies !is_space(si[m]) by {
                    assert(si[m] == s@[i + m]);
                }
                if j < n {
                    assert(si[k as int] == s@[j as int]);
                }
                lemma_token_len_is(si, k);
                assert(si.len() > 0 && !is_space(si[0]));
                assert(tokens_of(si) == seq![si.take(k as int)] + tokens_of(
                    si.skip(k as int),
                ));
                assert(si.take(k as int) =~= s@.subrange(i as int, j as int));
                assert(si.skip(k as int) =~= s@.skip(j as int));
                assert(r.deep_view() =~~= r0.push(tok_string@));
                assert(r.deep_view() + tokens_of(s@.skip(j as int)) =~~= tokens_of(s@));
            }
            i = j;
        }
    }
    proof {
        assert(s@.skip(n as int) =~= Seq::<char>::empty());
        assert(r.deep_view() + tokens_of(s@.skip(n as int)) =~~= r.deep_view());
    }
    r
}

/// Splits a token list into the command name and its arguments: the
/// first token names the command, the rest are its arguments in order. A
/// blank line — no tokens — dispatches nothing.
pub fn split_command(tokens: Vec<String>) -> (r: Option<(String, Vec<String>)>)
    ensures
        match r {
            Some(parts) => tokens.deep_view().len() >= 1 && parts.0@ == tokens.deep_view()[0]
                && parts.1.deep_view() == tokens.deep_view().drop_first(),
            None => tokens.deep_view().len() == 0,
        },
{
    if tokens.len() == 0 {
        None
    } else {
        let ghost t0 = tokens.deep_view();
        let mut rest = tokens;
        let name = rest.remove(0);
        proof {
            assert(name@ == t0[0]);
            assert(rest.deep_view() =~~= t0.drop_first());
        }
        Some((name, rest))
    }
}

} // verus!
