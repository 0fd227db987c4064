//! Character-level text utilities with exact specifications.

use vstd::prelude::*;

verus! {

/// Whether `c` carries the Unicode `White_Space` property (the set used by
/// `char::is_whitespace`, and therefore by `trim` and `split_whitespace`).
pub open spec fn is_ws(c: char) -> bool {
    let x = c as u32;
    ||| 0x09 <= x <= 0x0D
    ||| x == 0x20
    ||| x == 0x85
    ||| x == 0xA0
    ||| x == 0x1680
    ||| 0x2000 <= x <= 0x200A
    ||| x == 0x2028
    ||| x == 0x2029
    ||| x == 0x202F
    ||| x == 0x205F
    ||| x == 0x3000
}

/// Executable whitespace test.
pub fn is_whitespace(c: char) -> (res: bool)
    ensures
        res == is_ws(c),
{
    let x = c as u32;
    (0x09 <= x && x <= 0x0D) || x == 0x20 || x == 0x85 || x == 0xA0 || x == 0x1680 || (0x2000
        <= x && x <= 0x200A) || x == 0x2028 || x == 0x2029 || x == 0x202F || x == 0x205F || x
        == 0x3000
}

/// The characters of a string slice, in order.
pub fn to_chars(s: &str) -> (res: Vec<char>)
    ensures
        res@ == s@,
{
    let mut res: Vec<char> = Vec::new();
    for c in it: s.chars()
        invariant
            res@ == it.seq().take(it.index() as int),
            it.seq() == s@,
    {
        res.push(c);
    }
    res
}

/// The string made of the given characters, in order.
#[verifier::external_body]
pub(crate) fn from_chars(chars: &Vec<char>) -> (res: String)
    ensures
        res@ == chars@,
{
    chars.iter().collect()
}

/// Number of whitespace characters at the front of `s`.
pub open spec fn leading_ws_len(s: Seq<char>) -> nat
    decreases s.len(),
{
    if s.len() > 0 && is_ws(s[0]) {
        1 + leading_ws_len(s.drop_first())
    } else {
        0
    }
}

/// Number of non-whitespace characters at the front of `s`.
pub open spec fn leading_word_len(s: Seq<char>) -> nat
    decreases s.len(),
{
    if s.len() > 0 && !is_ws(s[0]) {
        1 + leading_word_len(s.drop_first())
    } else {
        0
    }
}

/// The maximal runs of non-whitespace characters of `s`, in order: what
/// `str::split_whitespace` yields.
pub open spec fn words(s: Seq<char>) -> Seq<Seq<char>>
    decreases s.len(),
{
    let t = s.skip(leading_ws_len(s) as int);
    if leading_ws_len(s) >= s.len() {
        seq![]
    } else {
        let n = leading_word_len(t);
        if n == 0 {
            seq![]
        } else {
            proof {
                lemma_leading_word_len_bound(t);
            }
            seq![t.take(n as int)] + words(t.skip(n as int))
        }
    }
}

/// Whether every character of `s` is whitespace (so that `trim` leaves nothing).
pub open spec fn is_blank(s: Seq<char>) -> bool {
    forall|i: int| 0 <= i < s.len() ==> is_ws(#[trigger] s[i])
}

/// The leading whitespace run of `s` lies within `s`, is all whitespace, and
/// ends at a non-whitespace character or at the end.
pub proof fn lemma_leading_ws_len_bound(s: Seq<char>)
    ensures
        leading_ws_len(s) <= s.len(),
        forall|i: int| 0 <= i < leading_ws_len(s) ==> is_ws(#[trigger] s[i]),
        leading_ws_len(s) < s.len() ==> !is_ws(s[leading_ws_len(s) as int]),
    decreases s.len(),
{
    if s.len() > 0 && is_ws(s[0]) {
        lemma_leading_ws_len_bound(s.drop_first());
        assert forall|i: int| 0 <= i < leading_ws_len(s) implies is_ws(#[trigger] s[i]) by {
            if i > 0 {
                assert(s[i] == s.drop_first()[i - 1]);
            }
        }
    }
}

/// The leading word of `s` lies within `s`, holds no whitespace, and ends at
/// a whitespace character or at the end.
pub proof fn lemma_leading_word_len_bound(s: Seq<char>)
    ensures
        leading_word_len(s) <= s.len(),
        forall|i: int| 0 <= i < leading_word_len(s) ==> !is_ws(#[trigger] s[i]),
        leading_word_len(s) < s.len() ==> is_ws(s[leading_word_len(s) as int]),
    decreases s.len(),
{
    if s.len() > 0 && !is_ws(s[0]) {
        lemma_leading_word_len_bound(s.drop_first());
        assert forall|i: int| 0 <= i < leading_word_len(s) implies !is_ws(#[trigger] s[i]) by {
            if i > 0 {
                assert(s[i] == s.drop_first()[i - 1]);
            }
        }
    }
}

/// Scanning forward from `i` over characters that satisfy the run predicate
/// measures the leading run of `s.skip(i)`.
pub proof fn lemma_ws_run_step(s: Seq<char>, i: int)
    requires
        0 <= i < s.len(),
        is_ws(s[i]),
    ensures
        leading_ws_len(s.skip(i)) == 1 + leading_ws_len(s.skip(i + 1)),
{
    assert(s.skip(i).drop_first() =~= s.skip(i + 1));
}

proof fn lemma_word_run_step(s: Seq<char>, i: int)
    requires
        0 <= i < s.len(),
        !is_ws(s[i]),
    ensures
        leading_word_len(s.skip(i)) == 1 + leading_word_len(s.skip(i + 1)),
{
    assert(s.skip(i).drop_first() =~= s.skip(i + 1));
}

/// The whitespace-separated words of `s`, as `str::split_whitespace` yields them.
pub fn split_whitespace(s: &Vec<char>) -> (res: Vec<Vec<char>>)
    ensures
        res@.len() == words(s@).len(),
        forall|k: int| 0 <= k < res@.len() ==> #[trigger] res@[k]@ == words(s@)[k],
{
    let mut res: Vec<Vec<char>> = Vec::new();
    let mut i: usize = 0;
    let n = s.len();
    let ghost done: Seq<Seq<char>> = seq![];
    proof {
        assert(s@.skip(0) =~= s@);
        assert(done + words(s@) =~= words(s@));
    }
    while i < n
        invariant
            n == s@.len(),
            i <= n,
            res@.len() == done.len(),
            forall|k: int| 0 <= k < res@.len() ==> #[trigger] res@[k]@ == done[k],
            done + words(s@.skip(i as int)) == words(s@),
        decreases n - i,
    {
        let start = i;
        while i < n && is_whitespace(s[i])
            invariant
                n == s@.len(),
                start <= i <= n,
                leading_ws_len(s@.skip(start as int)) == (i - start) + leading_ws_len(
                    s@.skip(i as int),
                ),
            decreases n - i,
        {
            proof {
                lemma_ws_run_step(s@, i as int);
            }
            i = i + 1;
        }
        proof {
            if i < n {
                assert(s@.skip(i as int)[0] == s@[i as int]);
            }
            assert(leading_ws_len(s@.skip(i as int)) == 0);
            assert(s@.skip(start as int).skip(i - start) =~= s@.skip(i as int));
        }
        if i == n {
            proof {
                lemma_leading_ws_len_bound(s@.skip(start as int));
                assert(words(s@.skip(start as int)) =~= seq![]);
                assert(words(s@.skip(i as int)) =~= seq![]) by {
                    assert(s@.skip(i as int).len() == 0);
                }
            }
        } else {
            let wstart = i;
            let mut word: Vec<char> = Vec::new();
            while i < n && !is_whitespace(s[i])
                invariant
                    n == s@.len(),
                    wstart <= i <= n,
                    word@ == s@.subrange(wstart as int, i as int),
                    leading_word_len(s@.skip(wstart as int)) == (i - wstart) + leading_word_len(
                        s@.skip(i as int),
                    ),
                decreases n - i,
            {
                proof {
                    lemma_word_run_step(s@, i as int);
                }
                word.push(s[i]);
                i = i + 1;
            }
            proof {
                if i < n {
                    assert(s@.skip(i as int)[0] == s@[i as int]);
                }
                assert(leading_word_len(s@.skip(i as int)) == 0);
                let t = s@.skip(start as int);
                let tw = t.skip(leading_ws_len(t) as int);
                assert(tw =~= s@.skip(wstart as int));
                assert(leading_word_len(tw) == i - wstart);
                assert(tw.take((i - wstart) as int) =~= word@);
                assert(tw.skip((i - wstart) as int) =~= s@.skip(i as int));
                assert(words(t) == seq![word@] + words(s@.skip(i as int)));
                assert(done + words(t) =~= done.push(word@) + words(s@.skip(i as int)));
                done = done.push(word@);
            }
            res.push(word);
        }
    }
    proof {
        if i >= n {
            assert(words(s@.skip(i as int)) =~= seq![]) by {
                assert(s@.skip(i as int).len() == 0);
            }
            assert(done + seq![] =~= done);
        }
    }
    res
}

/// The pieces of `parts` joined with `sep` between consecutive pieces.
pub open spec fn join(parts: Seq<Seq<char>>, sep: Seq<char>) -> Seq<char>
    decreases parts.len(),
{
    if parts.len() == 0 {
        seq![]
    } else if parts.len() == 1 {
        parts[0]
    } else {
        join(parts.drop_last(), sep) + sep + parts.last()
    }
}

/// The strings of `parts` joined with a single space between consecutive ones
/// (`parts.join(" ")`).
pub fn join_with_space(parts: &Vec<String>) -> (res: String)
    ensures
        res@ == join(parts.deep_view(), seq![' ']),
{
    let ghost pv = parts.deep_view();
    let mut acc: Vec<char> = Vec::new();
    let n = parts.len();
    let mut i: usize = 0;
    while i < n
        invariant
            n == parts.len(),
            i <= n,
            pv == parts.deep_view(),
            pv.len() == n,
            acc@ == join(pv.take(i as int), seq![' ']),
        decreases n - i,
    {
        if i > 0 {
            acc.push(' ');
        }
        let piece = to_chars(parts[i].as_str());
        let mut j: usize = 0;
        let ghost before = acc@;
        while j < piece.len()
            invariant
                j <= piece@.len(),
                acc@ == before + piece@.take(j as int),
            decreases piece@.len() - j,
        {
            acc.push(piece[j]);
            proof {
                assert(piece@.take(j + 1) =~= piece@.take(j as int).push(piece@[j as int]));
            }
            j = j + 1;
        }
        proof {
            assert(piece@.take(j as int) =~= piece@);
            assert(pv[i as int] == parts[i as int]@);
            let t = pv.take(i + 1);
            assert(t.drop_last() =~= pv.take(i as int));
            assert(t.last() == pv[i as int]);
            if i == 0 {
                assert(t =~= seq![pv[0]]);
            }
        }
        i = i + 1;
    }
    proof {
        assert(pv.take(n as int) =~= pv);
    }
    from_chars(&acc)
}

/// Whether `pat` occurs in `s` starting at index `i`.
pub open spec fn occurs_at(s: Seq<char>, pat: Seq<char>, i: int) -> bool {
    0 <= i && i + pat.len() <= s.len() && s.subrange(i, i + pat.len()) == pat
}

/// The first index at or after `i` where `pat` occurs in `s`.
pub open spec fn find_from(s: Seq<char>, pat: Seq<char>, i: int) -> Option<int>
    decreases s.len() - i,
{
    if i < 0 || i + pat.len() > s.len() {
        None
    } else if occurs_at(s, pat, i) {
        Some(i)
    } else {
        proof {
            if pat.len() == 0 {
                assert(s.subrange(i, i) =~= pat);
            }
        }
        find_from(s, pat, i + 1)
    }
}

/// The first index where `pat` occurs in `s` (`str::find`).
pub open spec fn find(s: Seq<char>, pat: Seq<char>) -> Option<int> {
    find_from(s, pat, 0)
}

/// A found occurrence is a real occurrence, at or after the starting index, and
/// no earlier occurrence lies between the starting index and it.
pub proof fn lemma_find_from(s: Seq<char>, pat: Seq<char>, i: int)
    requires
        0 <= i,
    ensures
        find_from(s, pat, i) matches Some(j) ==> occurs_at(s, pat, j) && i <= j && forall|
            k: int,
        | i <= k < j ==> !occurs_at(s, pat, k),
        find_from(s, pat, i) is None ==> forall|k: int| i <= k ==> !occurs_at(s, pat, k),
    decreases s.len() - i,
{
    if i < 0 || i + pat.len() > s.len() {
    } else if occurs_at(s, pat, i) {
    } else {
        if pat.len() == 0 {
            assert(s.subrange(i, i) =~= pat);
        }
        lemma_find_from(s, pat, i + 1);
    }
}

/// `s` with its first occurrence of `pat` replaced by `rep` (`str::replacen(pat, rep, 1)`).
pub open spec fn replace_first(s: Seq<char>, pat: Seq<char>, rep: Seq<char>) -> Seq<char> {
    match find(s, pat) {
        Some(i) => s.take(i) + rep + s.skip(i + pat.len()),
        None => s,
    }
}

/// Whether `s` begins with `prefix`.
pub open spec fn has_prefix(s: Seq<char>, prefix: Seq<char>) -> bool {
    prefix.len() <= s.len() && s.take(prefix.len() as int) == prefix
}

/// `s` without `prefix`, when it begins with it (`str::strip_prefix`).
pub open spec fn strip_prefix_spec(s: Seq<char>, prefix: Seq<char>) -> Option<Seq<char>> {
    if has_prefix(s, prefix) {
        Some(s.skip(prefix.len() as int))
    } else {
        None
    }
}

/// Whether `pat` occurs in `s` at index `i`.
pub fn matches_at(s: &Vec<char>, pat: &Vec<char>, i: usize) -> (res: bool)
    requires
        i <= s@.len(),
    ensures
        res == occurs_at(s@, pat@, i as int),
{
    if pat.len() > s.len() - i {
        return false;
    }
    let mut j: usize = 0;
    while j < pat.len()
        invariant
            i + pat@.len() <= s@.len(),
            s@.len() == s.len(),
            j <= pat@.len(),
            forall|k: int| 0 <= k < j ==> s@[i + k] == pat@[k],
        decreases pat@.len() - j,
    {
        assert(i + j < s.len());
        if s[i + j] != pat[j] {
            proof {
                assert(s@.subrange(i as int, i + pat@.len())[j as int] != pat@[j as int]);
            }
            return false;
        }
        j = j + 1;
    }
    proof {
        assert(s@.subrange(i as int, i + pat@.len()) =~= pat@);
    }
    true
}

/// Equality of two character sequences.
pub fn chars_equal(a: &Vec<char>, b: &Vec<char>) -> (res: bool)
    ensures
        res == (a@ == b@),
{
    if a.len() != b.len() {
        return false;
    }
    let r = matches_at(a, b, 0);
    proof {
        if r {
            assert(a@.subrange(0, b@.len() as int) =~= a@);
        } else {
            if a@ == b@ {
                assert(a@.subrange(0, b@.len() as int) =~= a@);
            }
        }
    }
    r
}

/// The first index where `pat` occurs in `s`.
pub fn find_chars(s: &Vec<char>, pat: &Vec<char>) -> (res: Option<usize>)
    ensures
        res matches Some(i) ==> find(s@, pat@) == Some(i as int),
        res is None ==> find(s@, pat@) is None,
{
    let n = s.len();
    if pat.len() > n {
        return None;
    }
    let last = n - pat.len();
    let mut i: usize = 0;
    loop
        invariant
            n == s@.len(),
            last + pat@.len() == n,
            i <= last,
            find(s@, pat@) == find_from(s@, pat@, i as int),
        decreases last - i,
    {
        if matches_at(s, pat, i) {
            return Some(i);
        }
        if i == last {
            assert(find_from(s@, pat@, i + 1) is None);
            return None;
        }
        i = i + 1;
    }
}

/// `s` with its first occurrence of `pat` replaced by `rep`.
pub fn replace_first_chars(s: &Vec<char>, pat: &Vec<char>, rep: &Vec<char>) -> (res: Vec<char>)
    ensures
        res@ == replace_first(s@, pat@, rep@),
{
    proof {
        lemma_find_from(s@, pat@, 0);
    }
    match find_chars(s, pat) {
        Some(i) => {
            assert(occurs_at(s@, pat@, i as int));
            assert(i + pat.len() <= s.len());
            let mut out = slice_chars(s, 0, i);
            append_chars(&mut out, rep);
            let rest = slice_chars(s, i + pat.len(), s.len());
            append_chars(&mut out, &rest);
            proof {
                assert(s@.subrange(0, i as int) =~= s@.take(i as int));
                assert(s@.subrange(i + pat@.len(), s@.len() as int) =~= s@.skip(
                    i + pat@.len(),
                ));
            }
            out
        },
        None => s.clone(),
    }
}

/// The characters of `s` from index `from` up to (not including) `to`.
pub fn slice_chars(s: &Vec<char>, from: usize, to: usize) -> (res: Vec<char>)
    requires
        from <= to <= s@.len(),
    ensures
        res@ == s@.subrange(from as int, to as int),
{
    let mut out: Vec<char> = Vec::new();
    let mut i = from;
    while i < to
        invariant
            from <= i <= to <= s@.len(),
            out@ == s@.subrange(from as int, i as int),
        decreases to - i,
    {
        out.push(s[i]);
        proof {
            assert(s@.subrange(from as int, i + 1) =~= s@.subrange(from as int, i as int).push(
                s@[i as int],
            ));
        }
        i = i + 1;
    }
    out
}

/// Appends the characters of `extra` to `out`.
pub fn append_chars(out: &mut Vec<char>, extra: &Vec<char>)
    ensures
        final(out)@ == old(out)@ + extra@,
{
    let mut i: usize = 0;
    let ghost start = out@;
    while i < extra.len()
        invariant
            i <= extra@.len(),
            out@ == start + extra@.take(i as int),
        decreases extra@.len() - i,
    {
        out.push(extra[i]);
        proof {
            assert(extra@.take(i + 1) =~= extra@.take(i as int).push(extra@[i as int]));
        }
        i = i + 1;
    }
    proof {
        assert(extra@.take(i as int) =~= extra@);
    }
}

/// `s` without `prefix`, when it begins with it.
pub fn strip_prefix_chars(s: &Vec<char>, prefix: &Vec<char>) -> (res: Option<Vec<char>>)
    ensures
        res matches Some(r) ==> strip_prefix_spec(s@, prefix@) == Some(r@),
        res is None ==> strip_prefix_spec(s@, prefix@) is None,
{
    if prefix.len() <= s.len() && matches_at(s, prefix, 0) {
        proof {
            assert(s@.subrange(0, prefix@.len() as int) =~= s@.take(prefix@.len() as int));
            assert(s@.subrange(prefix@.len() as int, s@.len() as int) =~= s@.skip(
                prefix@.len() as int,
            ));
        }
        Some(slice_chars(s, prefix.len(), s.len()))
    } else {
        proof {
            if prefix@.len() <= s@.len() {
                assert(s@.subrange(0, prefix@.len() as int) =~= s@.take(prefix@.len() as int));
            }
        }
        None
    }
}

/// Whether every character of `s` is whitespace.
pub fn is_blank_chars(s: &Vec<char>) -> (res: bool)
    ensures
        res == is_blank(s@),
{
    let mut i: usize = 0;
    while i < s.len()
        invariant
            i <= s@.len(),
            forall|k: int| 0 <= k < i ==> is_ws(#[trigger] s@[k]),
        decreases s@.len() - i,
    {
        if !is_whitespace(s[i]) {
            return false;
        }
        i = i + 1;
    }
    true
}

/// Length of the first line of `s`, its `'\n'` terminator included.
pub open spec fn line_len(s: Seq<char>) -> nat
    decreases s.len(),
{
    if s.len() == 0 {
        0
    } else if s[0] == '\n' {
        1
    } else {
        1 + line_len(s.drop_first())
    }
}

/// The first line of `s` lies within `s`, is non-empty when `s` is, holds no
/// newline before its last character, and ends with a newline unless it runs
/// to the end.
pub proof fn lemma_line_len(s: Seq<char>)
    ensures
        line_len(s) <= s.len(),
        s.len() > 0 ==> line_len(s) >= 1,
        forall|i: int| 0 <= i < line_len(s) - 1 ==> #[trigger] s[i] != '\n',
        0 < line_len(s) < s.len() ==> s[line_len(s) - 1] == '\n',
    decreases s.len(),
{
    if s.len() > 0 && s[0] != '\n' {
        lemma_line_len(s.drop_first());
        assert forall|i: int| 0 <= i < line_len(s) - 1 implies #[trigger] s[i] != '\n' by {
            if i > 0 {
                assert(s[i] == s.drop_first()[i - 1]);
            }
        }
        if 0 < line_len(s) < s.len() {
            assert(s[line_len(s) - 1] == s.drop_first()[line_len(s) - 2]);
        }
    }
}

/// The lines of `s`, each with its `'\n'` terminator (the last one may lack it),
/// as `syntect::util::LinesWithEndings` yields them.
pub open spec fn lines(s: Seq<char>) -> Seq<Seq<char>>
    decreases s.len(),
{
    if s.len() == 0 {
        seq![]
    } else {
        proof {
            lemma_line_len(s);
        }
        seq![s.take(line_len(s) as int)] + lines(s.skip(line_len(s) as int))
    }
}

proof fn lemma_line_step(s: Seq<char>, i: int)
    requires
        0 <= i < s.len(),
        s[i] != '\n',
    ensures
        line_len(s.skip(i)) == 1 + line_len(s.skip(i + 1)),
{
    assert(s.skip(i).drop_first() =~= s.skip(i + 1));
}

/// The lines of `s`, each keeping its line terminator.
pub fn lines_with_endings(s: &Vec<char>) -> (res: Vec<Vec<char>>)
    ensures
        res@.len() == lines(s@).len(),
        forall|k: int| 0 <= k < res@.len() ==> #[trigger] res@[k]@ == lines(s@)[k],
{
    let mut res: Vec<Vec<char>> = Vec::new();
    let n = s.len();
    let mut i: usize = 0;
    let ghost done: Seq<Seq<char>> = seq![];
    proof {
        assert(s@.skip(0) =~= s@);
        assert(done + lines(s@) =~= lines(s@));
    }
    while i < n
        invariant
            n == s@.len(),
            i <= n,
            res@.len() == done.len(),
            forall|k: int| 0 <= k < res@.len() ==> #[trigger] res@[k]@ == done[k],
            done + lines(s@.skip(i as int)) == lines(s@),
        decreases n - i,
    {
        let start = i;
        let mut line: Vec<char> = Vec::new();
        let mut at_end = false;
        while i < n && !at_end
            invariant
                n == s@.len(),
                start <= i <= n,
                line@ == s@.subrange(start as int, i as int),
                !at_end ==> line_len(s@.skip(start as int)) == (i - start) + line_len(
                    s@.skip(i as int),
                ),
                at_end ==> line_len(s@.skip(start as int)) == i - start,
                at_end ==> i > start,
            decreases n - i,
        {
            let c = s[i];
            line.push(c);
            if c == '\n' {
                proof {
                    assert(s@.skip(i as int)[0] == '\n');
                    assert(line_len(s@.skip(i as int)) == 1);
                }
                at_end = true;
            } else {
                proof {
                    lemma_line_step(s@, i as int);
                }
            }
            proof {
                assert(s@.subrange(start as int, i + 1) =~= s@.subrange(start as int, i as int).push(
                    c,
                ));
            }
            i = i + 1;
        }
        proof {
            let t = s@.skip(start as int);
            if !at_end {
                assert(s@.skip(i as int).len() == 0);
                assert(line_len(s@.skip(i as int)) == 0);
            }
            assert(t.len() > 0);
            assert(line_len(t) == i - start);
            assert(t.take((i - start) as int) =~= line@);
            assert(t.skip((i - start) as int) =~= s@.skip(i as int));
            assert(lines(t) == seq![line@] + lines(s@.skip(i as int)));
            assert(done + lines(t) =~= done.push(line@) + lines(s@.skip(i as int)));
            done = done.push(line@);
        }
        res.push(line);
    }
    proof {
        assert(s@.skip(i as int).len() == 0);
        assert(lines(s@.skip(i as int)) =~= seq![]);
        assert(done + seq![] =~= done);
    }
    res
}

/// The concatenation of the pieces of `parts`.
pub open spec fn concat(parts: Seq<Seq<char>>) -> Seq<char>
    decreases parts.len(),
{
    if parts.len() == 0 {
        seq![]
    } else {
        concat(parts.drop_last()) + parts.last()
    }
}

/// Concatenating the lines of `s` gives back `s`.
pub proof fn lemma_concat_lines(s: Seq<char>)
    ensures
        concat(lines(s)) == s,
    decreases s.len(),
{
    if s.len() > 0 {
        lemma_line_len(s);
        let n = line_len(s) as int;
        lemma_concat_lines(s.skip(n));
        lemma_concat_prepend(s.take(n), lines(s.skip(n)));
        assert(s.take(n) + s.skip(n) =~= s);
    }
}

/// Concatenation distributes over a piece put in front.
pub proof fn lemma_concat_prepend(first: Seq<char>, rest: Seq<Seq<char>>)
    ensures
        concat(seq![first] + rest) == first + concat(rest),
    decreases rest.len(),
{
    if rest.len() == 0 {
        assert(seq![first] + rest =~= seq![first]);
        assert(seq![first].drop_last() =~= Seq::<Seq<char>>::empty());
        assert(concat(seq![first]) == concat(Seq::<Seq<char>>::empty()) + first);
        assert(first + Seq::<char>::empty() =~= first);
        assert(Seq::<char>::empty() + first =~= first);
    } else {
        let all = seq![first] + rest;
        assert(all.drop_last() =~= seq![first] + rest.drop_last());
        lemma_concat_prepend(first, rest.drop_last());
        assert(all.last() == rest.last());
        assert(first + concat(rest.drop_last()) + rest.last() =~= first + (concat(
            rest.drop_last(),
        ) + rest.last()));
    }
}

/// Every word is a non-empty run of non-whitespace characters.
pub proof fn lemma_words_are_runs(s: Seq<char>)
    ensures
        forall|k: int| 0 <= k < words(s).len() ==> (#[trigger] words(s)[k]).len() > 0,
        forall|k: int, i: int|
            0 <= k < words(s).len() && 0 <= i < words(s)[k].len() ==> !is_ws(
                #[trigger] words(s)[k][i],
            ),
    decreases s.len(),
{
    lemma_leading_ws_len_bound(s);
    let t = s.skip(leading_ws_len(s) as int);
    if leading_ws_len(s) < s.len() {
        let n = leading_word_len(t);
        if n > 0 {
            lemma_leading_word_len_bound(t);
            lemma_words_are_runs(t.skip(n as int));
            let rest = words(t.skip(n as int));
            assert forall|k: int| 0 <= k < words(s).len() implies (#[trigger] words(s)[k]).len()
                > 0 by {
                if k > 0 {
                    assert(words(s)[k] == rest[k - 1]);
                }
            }
            assert forall|k: int, i: int|
                0 <= k < words(s).len() && 0 <= i < words(s)[k].len() implies !is_ws(
                #[trigger] words(s)[k][i],
            ) by {
                if k > 0 {
                    assert(words(s)[k] == rest[k - 1]);
                } else {
                    assert(words(s)[0] == t.take(n as int));
                    assert(t.take(n as int)[i] == t[i]);
                }
            }
        }
    }
}

} // verus!
