//! The release hook's command line.
//!
//! A release command is configured once as a whitespace-separated string,
//! tokenized at construction; when a verification completes the hook is
//! invoked with the configured tokens followed by the verified path as the
//! final argument.  An empty configuration means no hook.

use vstd::prelude::*;
use vstd::string::StrSliceExecFns;
use vstd::string::StringExecFns;

verus! {

/// The whitespace characters that separate tokens of the release command.
pub open spec fn is_space(c: char) -> bool {
    c == ' ' || c == '\t' || c == '\n' || c == '\r'
}

/// The length of the longest non-whitespace prefix.
pub open spec fn token_len(s: Seq<char>) -> nat
    decreases s.len(),
{
    if s.len() == 0 || is_space(s[0]) {
        0
    } else {
        (1 + token_len(s.drop_first())) as nat
    }
}

proof fn lemma_token_len_le(s: Seq<char>)
    ensures
        token_len(s) <= s.len(),
    decreases s.len(),
{
    if s.len() != 0 && !is_space(s[0]) {
        lemma_token_len_le(s.drop_first());
    }
}

/// The maximal non-whitespace runs of a character sequence, in order.
pub open spec fn split_ws(s: Seq<char>) -> Seq<Seq<char>>
    decreases s.len(),
    via split_ws_decreases
{
    if s.len() == 0 {
        Seq::<Seq<char>>::empty()
    } else if is_space(s[0]) {
        split_ws(s.subrange(1, s.len() as int))
    } else {
        seq![s.subrange(0, token_len(s) as int)] + split_ws(
            s.subrange(token_len(s) as int, s.len() as int),
        )
    }
}

#[via_fn]
proof fn split_ws_decreases(s: Seq<char>) {
    lemma_token_len_le(s);
}

/// A run of non-whitespace ended by whitespace or the end of the sequence
/// is exactly the longest such prefix.
proof fn lemma_token_len_run(s: Seq<char>, j: int)
    requires
        0 <= j <= s.len(),
        forall|k: int| 0 <= k < j ==> !is_space(s[k]),
        j == s.len() || is_space(s[j]),
    ensures
        token_len(s) == j,
    decreases j,
{
    if j == 0 {
    } else {
        assert(!is_space(s[0]));
        lemma_token_len_run(s.drop_first(), j - 1);
    }
}

/// Dropping one leading whitespace character drops no token.
proof fn lemma_split_ws_skip_space(s: Seq<char>, i: int)
    requires
        0 <= i < s.len(),
        is_space(s[i]),
    ensures
        split_ws(s.subrange(i, s.len() as int)) == split_ws(s.subrange(i + 1, s.len() as int)),
{
    let t = s.subrange(i, s.len() as int);
    lemma_token_len_le(t);
    assert(t.subrange(1, t.len() as int) =~= s.subrange(i + 1, s.len() as int));
}

fn is_space_exec(c: char) -> (r: bool)
    ensures
        r == is_space(c),
{
    c == ' ' || c == '\t' || c == '\n' || c == '\r'
}

/// Tokenizes a configured release command: the maximal whitespace-separated
/// words, in order.
pub fn parse_release(cmd: &str) -> (r: Vec<String>)
    ensures
        r.deep_view() == split_ws(cmd@),
{
    let n = cmd.unicode_len();
    let mut out: Vec<String> = Vec::new();
    let mut i: usize = 0;
    proof {
        assert(cmd@.subrange(0, n as int) =~= cmd@);
    }
    while i < n
        invariant
            n == cmd@.len(),
            i <= n,
            split_ws(cmd@) == out.deep_view() + split_ws(cmd@.subrange(i as int, n as int)),
        decreases n - i,
    {
        let c = cmd.get_char(i);
        if is_space_exec(c) {
            proof {
                lemma_split_ws_skip_space(cmd@, i as int);
            }
            i = i + 1;
        } else {
            let mut j = i + 1;
            while j < n && !is_space_exec(cmd.get_char(j))
                invariant
                    n == cmd@.len(),
                    i < j <= n,
                    forall|k: int| i <= k < j ==> !is_space(cmd@[k]),
                decreases n - j,
            {
                j = j + 1;
            }
            let token = cmd.substring_char(i, j).to_owned();
            let ghost pre = out.deep_view();
            proof {
                let rest = cmd@.subrange(i as int, n as int);
                lemma_token_len_run(rest, j - i);
                assert(!is_space(rest[0]));
                assert(rest.subrange(0, (j - i) as int) =~= cmd@.subrange(i as int, j as int));
                assert(rest.subrange((j - i) as int, rest.len() as int) =~= cmd@.subrange(
                    j as int,
                    n as int,
                ));
                assert(split_ws(rest) == seq![token@] + split_ws(cmd@.subrange(j as int, n as int)));
            }
            out.push(token);
            proof {
                assert(out.deep_view() =~= pre.push(token@));
                assert(pre.push(token@) + split_ws(cmd@.subrange(j as int, n as int)) =~= pre + (
                seq![token@] + split_ws(cmd@.subrange(j as int, n as int))));
            }
            i = j;
        }
    }
    proof {
        assert(split_ws(cmd@.subrange(n as int, n as int)) =~= Seq::<Seq<char>>::empty());
        assert(out.deep_view() + Seq::<Seq<char>>::empty() =~= out.deep_view());
    }
    out
}

/// The argument vector for one release invocation: the configured tokens
/// with the verified path appended, or nothing when no hook is configured.
pub fn release_argv(release: &Vec<String>, path: &str) -> (r: Option<Vec<String>>)
    ensures
        release@.len() == 0 ==> r is None,
        release@.len() > 0 ==> (r matches Some(v) && v.deep_view() == release.deep_view() + seq![
            path@,
        ]),
{
    if release.len() == 0 {
        return None;
    }
    let mut v: Vec<String> = Vec::new();
    let mut i: usize = 0;
    while i < release.len()
        invariant
            i <= release@.len(),
            v.deep_view() == release.deep_view().subrange(0, i as int),
        decreases release@.len() - i,
    {
        let s = release[i].clone();
        let ghost pre = v.deep_view();
        v.push(s);
        proof {
            assert(v.deep_view() =~= pre.push(release.deep_view()[i as int]));
            assert(pre.push(release.deep_view()[i as int]) =~= release.deep_view().subrange(
                0,
                i as int + 1,
            ));
        }
        i = i + 1;
    }
    proof {
        assert(release.deep_view().subrange(0, release@.len() as int) =~= release.deep_view());
    }
    v.push(path.to_owned());
    proof {
        assert(v.deep_view() =~= release.deep_view() + seq![path@]);
    }
    Some(v)
}

} // verus!
