//! Service configuration decisions: the deployment environment, the schema's
//! limits in production, and the allowed CORS origins.

use vstd::prelude::*;

use crate::text::{
    from_chars, is_whitespace, is_ws, leading_ws_len, lemma_leading_ws_len_bound, lemma_ws_run_step,
    slice_chars, to_chars,
};

verus! {

/// Environment assumed when none is configured: production, the most secure.
pub open spec fn effective_environment(configured: Option<Seq<char>>) -> Seq<char> {
    match configured {
        Some(e) => e,
        None => "prod"@,
    }
}

/// The deployment environment: the configured one, or `prod`.
pub fn deployment_environment(configured: Option<&str>) -> (res: String)
    ensures
        res@ == effective_environment(
            match configured {
                Some(c) => Some(c@),
                None => None,
            },
        ),
{
    match configured {
        Some(c) => String::from_str(c),
        None => String::from_str("prod"),
    }
}

/// How the GraphQL schema is built.
#[derive(Clone, Copy, Debug)]
pub struct SchemaPolicy {
    /// Whether introspection queries are answered.
    pub introspection: bool,
    /// The deepest query accepted, if limited.
    pub depth_limit: Option<usize>,
}

/// In production, introspection is off and queries nest at most five deep.
pub open spec fn schema_policy_for(environment: Seq<char>) -> SchemaPolicy {
    if environment == "prod"@ {
        SchemaPolicy { introspection: false, depth_limit: Some(5) }
    } else {
        SchemaPolicy { introspection: true, depth_limit: None }
    }
}

/// The schema policy of a deployment environment.
pub fn schema_policy(environment: &str) -> (res: SchemaPolicy)
    ensures
        res == schema_policy_for(environment@),
{
    let env = to_chars(environment);
    let prod = to_chars("prod");
    if crate::text::chars_equal(&env, &prod) {
        SchemaPolicy { introspection: false, depth_limit: Some(5) }
    } else {
        SchemaPolicy { introspection: true, depth_limit: None }
    }
}

/// Number of whitespace characters at the end of `s`.
pub open spec fn trailing_ws_len(s: Seq<char>) -> nat
    decreases s.len(),
{
    if s.len() > 0 && is_ws(s.last()) {
        1 + trailing_ws_len(s.drop_last())
    } else {
        0
    }
}

/// `s` without leading and trailing whitespace (`str::trim`).
pub open spec fn trim(s: Seq<char>) -> Seq<char> {
    let t = s.skip(leading_ws_len(s) as int);
    t.take(t.len() - trailing_ws_len(t))
}

/// The index of the first `c` in `s`.
pub open spec fn index_of(s: Seq<char>, c: char) -> Option<nat>
    decreases s.len(),
{
    if s.len() == 0 {
        None
    } else if s[0] == c {
        Some(0)
    } else {
        match index_of(s.drop_first(), c) {
            Some(i) => Some(i + 1),
            None => None,
        }
    }
}

/// A found index points at the first occurrence of `c`; none is found exactly
/// when `c` does not occur.
pub proof fn lemma_index_of(s: Seq<char>, c: char)
    ensures
        index_of(s, c) matches Some(i) ==> i < s.len() && s[i as int] == c && forall|k: int|
            0 <= k < i ==> s[k] != c,
        index_of(s, c) is None ==> forall|k: int| 0 <= k < s.len() ==> s[k] != c,
    decreases s.len(),
{
    if s.len() > 0 && s[0] != c {
        lemma_index_of(s.drop_first(), c);
        assert forall|k: int| 1 <= k < s.len() implies s[k] == s.drop_first()[k - 1] by {}
    }
}

/// The pieces of `s` between the occurrences of `sep` (`str::split`); there is
/// always at least one piece.
pub open spec fn split_on(s: Seq<char>, sep: char) -> Seq<Seq<char>>
    decreases s.len(),
{
    match index_of(s, sep) {
        Some(i) => {
            proof {
                lemma_index_of(s, sep);
            }
            seq![s.take(i as int)] + split_on(s.skip(i + 1int), sep)
        },
        None => seq![s],
    }
}

/// `s` without leading and trailing whitespace.
pub fn trim_chars(s: &Vec<char>) -> (res: Vec<char>)
    ensures
        res@ == trim(s@),
{
    let n = s.len();
    let mut a: usize = 0;
    proof {
        assert(s@.skip(0) =~= s@);
    }
    while a < n && is_whitespace(s[a])
        invariant
            n == s@.len(),
            a <= n,
            leading_ws_len(s@) == a + leading_ws_len(s@.skip(a as int)),
        decreases n - a,
    {
        proof {
            lemma_ws_run_step(s@, a as int);
        }
        a = a + 1;
    }
    proof {
        if a < n {
            assert(s@.skip(a as int)[0] == s@[a as int]);
        }
        assert(leading_ws_len(s@.skip(a as int)) == 0);
    }
    let t = slice_chars(s, a, n);
    proof {
        assert(t@ =~= s@.skip(leading_ws_len(s@) as int));
        assert(t@.take(t@.len() as int) =~= t@);
    }
    let mut j: usize = t.len();
    while j > 0 && is_whitespace(t[j - 1])
        invariant
            j <= t@.len(),
            trailing_ws_len(t@) == (t@.len() - j) + trailing_ws_len(t@.take(j as int)),
        decreases j,
    {
        proof {
            let p = t@.take(j as int);
            assert(p.last() == t@[j - 1]);
            assert(p.drop_last() =~= t@.take(j - 1));
        }
        j = j - 1;
    }
    proof {
        let p = t@.take(j as int);
        if j > 0 {
            assert(p.last() == t@[j - 1]);
        }
        assert(trailing_ws_len(p) == 0);
    }
    let res = slice_chars(&t, 0, j);
    proof {
        assert(res@ =~= t@.take(j as int));
    }
    res
}

proof fn lemma_index_of_step(s: Seq<char>, i: int, c: char)
    requires
        0 <= i < s.len(),
        s[i] != c,
    ensures
        index_of(s.skip(i), c) == match index_of(s.skip(i + 1), c) {
            Some(k) => Some(k + 1),
            None => None::<nat>,
        },
{
    assert(s.skip(i).drop_first() =~= s.skip(i + 1));
}

/// The pieces of `s` between the occurrences of `sep`.
pub fn split_chars(s: &Vec<char>, sep: char) -> (res: Vec<Vec<char>>)
    ensures
        res@.len() == split_on(s@, sep).len(),
        forall|k: int| 0 <= k < res@.len() ==> #[trigger] res@[k]@ == split_on(s@, sep)[k],
{
    let n = s.len();
    let mut res: Vec<Vec<char>> = Vec::new();
    let ghost mut done: Seq<Seq<char>> = seq![];
    let mut start: usize = 0;
    let mut finished = false;
    proof {
        assert(s@.skip(0) =~= s@);
        assert(done + split_on(s@, sep) =~= split_on(s@, sep));
    }
    while !finished
        invariant
            n == s@.len(),
            start <= n,
            res@.len() == done.len(),
            forall|k: int| 0 <= k < res@.len() ==> #[trigger] res@[k]@ == done[k],
            finished ==> done == split_on(s@, sep),
            !finished ==> done + split_on(s@.skip(start as int), sep) == split_on(s@, sep),
        decreases n - start + if finished {
            0int
        } else {
            1int
        },
    {
        let mut i = start;
        while i < n && s[i] != sep
            invariant
                n == s@.len(),
                start <= i <= n,
                index_of(s@.skip(start as int), sep) == match index_of(s@.skip(i as int), sep) {
                    Some(k) => Some(k + (i - start) as nat),
                    None => None::<nat>,
                },
            decreases n - i,
        {
            proof {
                lemma_index_of_step(s@, i as int, sep);
            }
            i = i + 1;
        }
        let piece = slice_chars(s, start, i);
        let ghost rest = s@.skip(start as int);
        if i < n {
            proof {
                assert(s@.skip(i as int)[0] == sep);
                assert(index_of(rest, sep) == Some((i - start) as nat));
                lemma_index_of(rest, sep);
                assert(rest.take(i - start) =~= piece@);
                assert(rest.skip(i - start + 1) =~= s@.skip(i + 1));
                assert(split_on(rest, sep) == seq![piece@] + split_on(s@.skip(i + 1), sep));
                assert(done + split_on(rest, sep) =~= done.push(piece@) + split_on(
                    s@.skip(i + 1),
                    sep,
                ));
                done = done.push(piece@);
            }
            res.push(piece);
            start = i + 1;
        } else {
            proof {
                assert(s@.skip(i as int).len() == 0);
                assert(index_of(s@.skip(i as int), sep) is None);
                assert(rest =~= piece@);
                assert(split_on(rest, sep) == seq![piece@]);
                assert(done + seq![piece@] =~= done.push(piece@));
                done = done.push(piece@);
            }
            res.push(piece);
            start = n;
            finished = true;
        }
    }
    res
}

/// The allowed CORS origins as configured: the comma-separated entries, each
/// trimmed (entries that are not valid header values are left out later).
pub fn cors_origin_candidates(configured: &str) -> (res: Vec<String>)
    ensures
        res@.len() == split_on(configured@, ',').len(),
        forall|k: int|
            0 <= k < res@.len() ==> #[trigger] res@[k]@ == trim(split_on(configured@, ',')[k]),
{
    let pieces = split_chars(&to_chars(configured), ',');
    let mut res: Vec<String> = Vec::new();
    let mut k: usize = 0;
    while k < pieces.len()
        invariant
            k <= pieces@.len(),
            pieces@.len() == split_on(configured@, ',').len(),
            forall|j: int| 0 <= j < pieces@.len() ==> #[trigger] pieces@[j]@ == split_on(
                configured@,
                ',',
            )[j],
            res@.len() == k,
            forall|j: int| 0 <= j < k ==> #[trigger] res@[j]@ == trim(split_on(configured@, ',')[j]),
        decreases pieces@.len() - k,
    {
        let trimmed = trim_chars(&pieces[k]);
        res.push(from_chars(&trimmed));
        k = k + 1;
    }
    res
}

/// Without a configured environment the service runs as production: no
/// introspection, and queries nest at most five deep.
pub proof fn lemma_unconfigured_is_production()
    ensures
        schema_policy_for(effective_environment(None)) == (SchemaPolicy {
            introspection: false,
            depth_limit: Some(5),
        }),
{
}

/// Trimming leaves no whitespace at either end, and what it leaves is a
/// contiguous part of the input.
pub proof fn lemma_trim_strips(s: Seq<char>)
    ensures
        trim(s).len() > 0 ==> !is_ws(trim(s)[0]) && !is_ws(trim(s).last()),
        exists|a: int| 0 <= a <= s.len() - trim(s).len() && #[trigger] s.subrange(a, a + trim(s).len()) == trim(s),
{
    lemma_leading_ws_len_bound(s);
    let a = leading_ws_len(s) as int;
    let t = s.skip(a);
    lemma_trailing_ws_len_bound(t);
    let r = trim(s);
    if r.len() > 0 {
        assert(r[0] == t[0]);
        assert(t[0] == s[a]);
        assert(r.last() == t[r.len() - 1]);
    }
    assert(s.subrange(a, a + r.len()) =~= r);
}

/// The trailing whitespace run of `s` lies within `s` and is preceded by a
/// non-whitespace character or the start.
pub proof fn lemma_trailing_ws_len_bound(s: Seq<char>)
    ensures
        trailing_ws_len(s) <= s.len(),
        trailing_ws_len(s) < s.len() ==> !is_ws(s[s.len() - 1 - trailing_ws_len(s)]),
    decreases s.len(),
{
    if s.len() > 0 && is_ws(s.last()) {
        lemma_trailing_ws_len_bound(s.drop_last());
        if trailing_ws_len(s) < s.len() {
            assert(s[s.len() - 1 - trailing_ws_len(s)] == s.drop_last()[s.drop_last().len() - 1
                - trailing_ws_len(s.drop_last())]);
        }
    }
}

} // verus!
