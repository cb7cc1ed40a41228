//! Character-sequence primitives shared by the rest of the library.
//!
//! Every string is reasoned about through its view, a `Seq<char>`.

use vstd::prelude::*;

verus! {

/// `p` occurs in `s` starting at index `i`.
pub open spec fn occurs_at(s: Seq<char>, p: Seq<char>, i: int) -> bool {
    0 <= i && i + p.len() <= s.len() && s.subrange(i, i + p.len()) == p
}

/// `s` starts with `p`.
pub open spec fn starts_with(s: Seq<char>, p: Seq<char>) -> bool {
    occurs_at(s, p, 0)
}

/// `s` ends with `p`.
pub open spec fn ends_with(s: Seq<char>, p: Seq<char>) -> bool {
    p.len() <= s.len() && occurs_at(s, p, s.len() - p.len())
}

/// `p` occurs somewhere in `s`.
pub open spec fn contains(s: Seq<char>, p: Seq<char>) -> bool {
    exists|i: int| occurs_at(s, p, i)
}

/// Copies the characters of a string slice into a vector.
pub fn to_chars(s: &str) -> (r: Vec<char>)
    ensures
        r@ == s@,
{
    let mut r: Vec<char> = Vec::new();
    for c in it: s.chars()
        invariant
            r@ == it.seq().subrange(0, it.index() as int),
    {
        r.push(c);
    }
    r
}

/// Appends one character to a `String` (`String::push`).
#[verifier::external_body]
fn push_char(s: &mut String, c: char)
    ensures
        final(s)@ == old(s)@.push(c),
{
    s.push(c);
}

/// Builds a `String` holding exactly the given characters.
pub fn from_chars(v: &[char]) -> (r: String)
    ensures
        r@ == v@,
{
    let mut r = String::new();
    let mut i: usize = 0;
    while i < v.len()
        invariant
            i <= v.len(),
            r@ == v@.subrange(0, i as int),
        decreases v.len() - i,
    {
        push_char(&mut r, v[i]);
        i += 1;
    }
    r
}


/// `i` is the first index at or after `from` where `p` occurs in `s`.
pub open spec fn is_first_occurrence(s: Seq<char>, p: Seq<char>, from: int, i: int) -> bool {
    &&& from <= i
    &&& occurs_at(s, p, i)
    &&& forall|j: int| from <= j < i ==> !occurs_at(s, p, j)
}

/// The first index at or after `from` where `p` occurs in `s`, if any.
pub open spec fn first_occurrence(s: Seq<char>, p: Seq<char>, from: int) -> Option<int> {
    if exists|i: int| is_first_occurrence(s, p, from, i) {
        Some(choose|i: int| is_first_occurrence(s, p, from, i))
    } else {
        None
    }
}

/// There is at most one first occurrence.
pub proof fn lemma_first_occurrence_unique(s: Seq<char>, p: Seq<char>, from: int, i: int)
    requires
        is_first_occurrence(s, p, from, i),
    ensures
        first_occurrence(s, p, from) == Some(i),
{
    let k = choose|k: int| is_first_occurrence(s, p, from, k);
    assert(is_first_occurrence(s, p, from, k));
    if k < i {
        assert(!occurs_at(s, p, k));
    } else if i < k {
        assert(!occurs_at(s, p, i));
    }
}

/// When `p` occurs nowhere at or after `from`, there is no first occurrence.
pub proof fn lemma_first_occurrence_none(s: Seq<char>, p: Seq<char>, from: int)
    requires
        forall|j: int| from <= j ==> !occurs_at(s, p, j),
    ensures
        first_occurrence(s, p, from) is None,
{
}

/// Some occurrence at or after `from` implies a first one.
pub proof fn lemma_first_occurrence_exists(s: Seq<char>, p: Seq<char>, from: int, i: int)
    requires
        from <= i,
        occurs_at(s, p, i),
    ensures
        first_occurrence(s, p, from) is Some,
    decreases i - from,
{
    if forall|j: int| from <= j < i ==> !occurs_at(s, p, j) {
        assert(is_first_occurrence(s, p, from, i));
    } else {
        let j = choose|j: int| from <= j < i && occurs_at(s, p, j);
        lemma_first_occurrence_exists(s, p, from, j);
        let k = choose|k: int| is_first_occurrence(s, p, from, k);
        assert(is_first_occurrence(s, p, from, k));
    }
}

/// Decides `occurs_at(s, p, i)`.
pub fn occurs_at_exec(s: &[char], p: &[char], i: usize) -> (r: bool)
    ensures
        r == occurs_at(s@, p@, i as int),
{
    if p.len() > s.len() || i > s.len() - p.len() {
        return false;
    }
    let mut k: usize = 0;
    while k < p.len()
        invariant
            k <= p.len(),
            i + p.len() <= s.len(),
            forall|m: int| 0 <= m < k ==> s@[i + m] == p@[m],
        decreases p.len() - k,
    {
        if s[i + k] != p[k] {
            assert(s@.subrange(i as int, i + p.len())[k as int] != p@[k as int]);
            return false;
        }
        k += 1;
    }
    assert(s@.subrange(i as int, i + p.len()) =~= p@);
    true
}

/// Decides `starts_with(s, p)`.
pub fn starts_with_exec(s: &[char], p: &[char]) -> (r: bool)
    ensures
        r == starts_with(s@, p@),
{
    occurs_at_exec(s, p, 0)
}

/// Decides `ends_with(s, p)`.
pub fn ends_with_exec(s: &[char], p: &[char]) -> (r: bool)
    ensures
        r == ends_with(s@, p@),
{
    if p.len() > s.len() {
        return false;
    }
    occurs_at_exec(s, p, s.len() - p.len())
}

/// The first occurrence of `p` in `s` at or after `from`.
pub fn find_from(s: &[char], p: &[char], from: usize) -> (r: Option<usize>)
    ensures
        r matches Some(i) ==> is_first_occurrence(s@, p@, from as int, i as int),
        r is None ==> forall|j: int| from <= j ==> !occurs_at(s@, p@, j),
        r matches Some(i) ==> first_occurrence(s@, p@, from as int) == Some(i as int),
        r is None ==> first_occurrence(s@, p@, from as int) is None,
{
    if p.len() > s.len() || from > s.len() - p.len() {
        return None;
    }
    let last = s.len() - p.len();
    let mut i = from;
    while i < last
        invariant
            from <= i <= last,
            last == s.len() - p.len(),
            forall|j: int| from <= j < i ==> !occurs_at(s@, p@, j),
        decreases last - i,
    {
        if occurs_at_exec(s, p, i) {
            proof {
                lemma_first_occurrence_unique(s@, p@, from as int, i as int);
            }
            return Some(i);
        }
        i += 1;
    }
    if occurs_at_exec(s, p, last) {
        proof {
            lemma_first_occurrence_unique(s@, p@, from as int, last as int);
        }
        return Some(last);
    }
    proof {
        assert forall|j: int| from <= j implies !occurs_at(s@, p@, j) by {
            if j > last {
                assert(j + p@.len() > s@.len());
            }
        }
    }
    None
}

/// Decides `contains(s, p)`.
pub fn contains_exec(s: &[char], p: &[char]) -> (r: bool)
    ensures
        r == contains(s@, p@),
{
    match find_from(s, p, 0) {
        Some(i) => true,
        None => {
            assert forall|j: int| !occurs_at(s@, p@, j) by {
                if 0 <= j {
                } 
            }
            false
        },
    }
}


/// The views of a sequence of character vectors.
pub open spec fn views(v: Seq<Vec<char>>) -> Seq<Seq<char>> {
    v.map_values(|x: Vec<char>| x@)
}

/// Copies `s[from..to]` into a new vector.
pub fn copy_range(s: &[char], from: usize, to: usize) -> (r: Vec<char>)
    requires
        from <= to <= s@.len(),
    ensures
        r@ == s@.subrange(from as int, to as int),
{
    vstd::slice::slice_to_vec(vstd::slice::slice_subrange(s, from, to))
}

/// Unicode `White_Space`, the set that `char::is_whitespace` tests.
pub open spec fn is_ws(c: char) -> bool {
    ||| ('\u{9}' <= c && c <= '\u{d}')
    ||| c == ' '
    ||| c == '\u{85}'
    ||| c == '\u{a0}'
    ||| c == '\u{1680}'
    ||| ('\u{2000}' <= c && c <= '\u{200a}')
    ||| c == '\u{2028}'
    ||| c == '\u{2029}'
    ||| c == '\u{202f}'
    ||| c == '\u{205f}'
    ||| c == '\u{3000}'
}

/// Decides `is_ws(c)`.
pub fn is_whitespace(c: char) -> (r: bool)
    ensures
        r == is_ws(c),
{
    ('\u{9}' <= c && c <= '\u{d}') || c == ' ' || c == '\u{85}' || c == '\u{a0}' || c == '\u{1680}'
        || ('\u{2000}' <= c && c <= '\u{200a}') || c == '\u{2028}' || c == '\u{2029}' || c
        == '\u{202f}' || c == '\u{205f}' || c == '\u{3000}'
}

/// `s` without its leading whitespace.
pub open spec fn trim_start(s: Seq<char>) -> Seq<char>
    decreases s.len(),
{
    if s.len() > 0 && is_ws(s[0]) {
        trim_start(s.drop_first())
    } else {
        s
    }
}

/// `s` without its trailing whitespace.
pub open spec fn trim_end(s: Seq<char>) -> Seq<char>
    decreases s.len(),
{
    if s.len() > 0 && is_ws(s.last()) {
        trim_end(s.drop_last())
    } else {
        s
    }
}

/// `s` without leading and trailing whitespace (`str::trim`).
pub open spec fn trim(s: Seq<char>) -> Seq<char> {
    trim_end(trim_start(s))
}

/// The index of the first non-whitespace character of `s`, or its length.
pub fn trim_start_index(s: &[char]) -> (r: usize)
    ensures
        r <= s@.len(),
        trim_start(s@) == s@.subrange(r as int, s@.len() as int),
{
    let mut i: usize = 0;
    assert(s@.subrange(0, s@.len() as int) =~= s@);
    while i < s.len() && is_whitespace(s[i])
        invariant
            i <= s@.len(),
            trim_start(s@) == trim_start(s@.subrange(i as int, s@.len() as int)),
        decreases s.len() - i,
    {
        assert(s@.subrange(i as int, s@.len() as int).drop_first() =~= s@.subrange(
            i + 1,
            s@.len() as int,
        ));
        i += 1;
    }
    assert(s@.subrange(0, s@.len() as int) =~= s@);
    proof {
        r_trim_start_done(s@, i as int);
    }
    i
}

proof fn r_trim_start_done(s: Seq<char>, i: int)
    requires
        0 <= i <= s.len(),
        trim_start(s) == trim_start(s.subrange(i, s.len() as int)),
        i == s.len() || !is_ws(s[i]),
    ensures
        trim_start(s) == s.subrange(i, s.len() as int),
{
    let t = s.subrange(i, s.len() as int);
    if t.len() > 0 {
        assert(t[0] == s[i]);
    }
}

/// One past the index of the last non-whitespace character of `s[..end]`.
pub fn trim_end_index(s: &[char], end: usize) -> (r: usize)
    requires
        end <= s@.len(),
    ensures
        r <= end,
        trim_end(s@.subrange(0, end as int)) == s@.subrange(0, r as int),
{
    let mut j: usize = end;
    while j > 0 && is_whitespace(s[j - 1])
        invariant
            j <= end <= s@.len(),
            trim_end(s@.subrange(0, end as int)) == trim_end(s@.subrange(0, j as int)),
        decreases j,
    {
        assert(s@.subrange(0, j as int).drop_last() =~= s@.subrange(0, j - 1));
        j -= 1;
    }
    let ghost t = s@.subrange(0, j as int);
    if j > 0 {
        assert(t.last() == s@[j - 1]);
    }
    j
}

/// `str::trim` on a character slice.
pub fn trim_exec(s: &[char]) -> (r: Vec<char>)
    ensures
        r@ == trim(s@),
{
    let a = trim_start_index(s);
    let rest = vstd::slice::slice_subrange(s, a, s.len());
    let b = trim_end_index(rest, rest.len());
    assert(rest@.subrange(0, rest@.len() as int) =~= rest@);
    copy_range(rest, 0, b)
}

/// `str::trim_start` on a character slice.
pub fn trim_start_exec(s: &[char]) -> (r: Vec<char>)
    ensures
        r@ == trim_start(s@),
{
    let a = trim_start_index(s);
    copy_range(s, a, s.len())
}

/// `line` with one trailing carriage return removed.
pub open spec fn strip_cr(line: Seq<char>) -> Seq<char> {
    if line.len() > 0 && line.last() == '\r' {
        line.drop_last()
    } else {
        line
    }
}

/// The lines of `s`, as `str::lines` yields them: split at `\n`, a `\r`
/// right before a `\n` dropped, and no empty line after a final `\n`.
pub open spec fn lines(s: Seq<char>) -> Seq<Seq<char>>
    decreases s.len(),
{
    if s.len() == 0 {
        seq![]
    } else {
        match first_occurrence(s, seq!['\n'], 0) {
            Some(i) => if 0 <= i < s.len() {
                seq![strip_cr(s.subrange(0, i))] + lines(s.subrange(i + 1, s.len() as int))
            } else {
                seq![]
            },
            None => seq![s],
        }
    }
}

/// `str::lines` on a character slice.
pub fn lines_exec(s: &[char]) -> (r: Vec<Vec<char>>)
    ensures
        views(r@) == lines(s@),
{
    let nl = vec!['\n'];
    let mut r: Vec<Vec<char>> = Vec::new();
    let mut pos: usize = 0;
    assert(s@.subrange(0, s@.len() as int) =~= s@);
    while pos < s.len()
        invariant
            pos <= s@.len(),
            nl@ == seq!['\n'],
            lines(s@) == views(r@) + lines(s@.subrange(pos as int, s@.len() as int)),
        decreases s.len() - pos,
    {
        let rest = vstd::slice::slice_subrange(s, pos, s.len());
        match find_from(rest, nl.as_slice(), 0) {
            Some(i) => {
                let mut line = copy_range(rest, 0, i);
                if i > 0 && rest[i - 1] == '\r' {
                    line.pop();
                }
                proof {
                    assert(occurs_at(rest@, nl@, i as int));
                    assert(rest@.subrange(i as int, i + 1)[0] == '\n');
                    assert(line@ == strip_cr(rest@.subrange(0, i as int)));
                    assert(rest@.subrange(i + 1, rest@.len() as int) =~= s@.subrange(
                        pos + i + 1,
                        s@.len() as int,
                    ));
                    assert(views(r@.push(line)) =~= views(r@).push(line@));
                }
                r.push(line);
                pos = pos + i + 1;
            },
            None => {
                let line = copy_range(rest, 0, rest.len());
                proof {
                    assert(rest@.subrange(0, rest@.len() as int) =~= rest@);
                    assert(views(r@.push(line)) =~= views(r@).push(line@));
                    assert(s@.subrange(s@.len() as int, s@.len() as int) =~= Seq::<char>::empty());
                }
                r.push(line);
                pos = s.len();
            },
        }
    }
    assert(s@.subrange(pos as int, s@.len() as int) =~= Seq::<char>::empty());
    assert(views(r@) + Seq::<Seq<char>>::empty() =~= views(r@));
    r
}


/// Helper of `split_char`: `cur` is the piece collected so far.
pub open spec fn split_from(s: Seq<char>, sep: char, cur: Seq<char>) -> Seq<Seq<char>>
    decreases s.len(),
{
    if s.len() == 0 {
        seq![cur]
    } else if s[0] == sep {
        seq![cur] + split_from(s.drop_first(), sep, seq![])
    } else {
        split_from(s.drop_first(), sep, cur.push(s[0]))
    }
}

/// The pieces of `s` between occurrences of `sep` (`str::split` with a
/// `char` pattern): empty pieces included, always at least one piece.
pub open spec fn split_char(s: Seq<char>, sep: char) -> Seq<Seq<char>> {
    split_from(s, sep, seq![])
}

/// `str::split` with a `char` pattern, on a character slice.
pub fn split_char_exec(s: &[char], sep: char) -> (r: Vec<Vec<char>>)
    ensures
        views(r@) == split_char(s@, sep),
{
    let mut r: Vec<Vec<char>> = Vec::new();
    let mut cur: Vec<char> = Vec::new();
    let mut i: usize = 0;
    assert(s@.subrange(0, s@.len() as int) =~= s@);
    while i < s.len()
        invariant
            i <= s@.len(),
            split_char(s@, sep) == views(r@) + split_from(
                s@.subrange(i as int, s@.len() as int),
                sep,
                cur@,
            ),
        decreases s.len() - i,
    {
        let ghost rest = s@.subrange(i as int, s@.len() as int);
        assert(rest.drop_first() =~= s@.subrange(i + 1, s@.len() as int));
        if s[i] == sep {
            let done = cur;
            cur = Vec::new();
            assert(views(r@.push(done)) =~= views(r@).push(done@));
            assert(cur@ =~= Seq::<char>::empty());
            r.push(done);
        } else {
            cur.push(s[i]);
        }
        i += 1;
    }
    assert(s@.subrange(i as int, s@.len() as int) =~= Seq::<char>::empty());
    let ghost before = views(r@);
    assert(views(r@.push(cur)) =~= before.push(cur@));
    r.push(cur);
    assert(before + seq![cur@] =~= before.push(cur@));
    r
}

/// Helper of `split_ws`: `cur` is the word collected so far.
pub open spec fn split_ws_from(s: Seq<char>, cur: Seq<char>) -> Seq<Seq<char>>
    decreases s.len(),
{
    if s.len() == 0 {
        if cur.len() > 0 {
            seq![cur]
        } else {
            seq![]
        }
    } else if is_ws(s[0]) {
        (if cur.len() > 0 {
            seq![cur]
        } else {
            seq![]
        }) + split_ws_from(s.drop_first(), seq![])
    } else {
        split_ws_from(s.drop_first(), cur.push(s[0]))
    }
}

/// The non-empty runs of non-whitespace in `s` (`str::split_whitespace`).
pub open spec fn split_ws(s: Seq<char>) -> Seq<Seq<char>> {
    split_ws_from(s, seq![])
}

/// `str::split_whitespace` on a character slice.
pub fn split_ws_exec(s: &[char]) -> (r: Vec<Vec<char>>)
    ensures
        views(r@) == split_ws(s@),
{
    let mut r: Vec<Vec<char>> = Vec::new();
    let mut cur: Vec<char> = Vec::new();
    let mut i: usize = 0;
    assert(s@.subrange(0, s@.len() as int) =~= s@);
    while i < s.len()
        invariant
            i <= s@.len(),
            split_ws(s@) == views(r@) + split_ws_from(s@.subrange(i as int, s@.len() as int), cur@),
        decreases s.len() - i,
    {
        let ghost rest = s@.subrange(i as int, s@.len() as int);
        assert(rest.drop_first() =~= s@.subrange(i + 1, s@.len() as int));
        if is_whitespace(s[i]) {
            if cur.len() > 0 {
                let done = cur;
                assert(views(r@.push(done)) =~= views(r@).push(done@));
                assert(views(r@).push(done@) =~= views(r@) + seq![done@]);
                r.push(done);
            } else {
                assert(views(r@) + Seq::<Seq<char>>::empty() =~= views(r@));
            }
            cur = Vec::new();
            assert(cur@ =~= Seq::<char>::empty());
        } else {
            cur.push(s[i]);
        }
        i += 1;
    }
    assert(s@.subrange(i as int, s@.len() as int) =~= Seq::<char>::empty());
    if cur.len() > 0 {
        let ghost before = views(r@);
        assert(views(r@.push(cur)) =~= before.push(cur@));
        r.push(cur);
        assert(before + seq![cur@] =~= before.push(cur@));
    } else {
        assert(views(r@) + Seq::<Seq<char>>::empty() =~= views(r@));
    }
    r
}

/// The pieces of `ps` with `sep` between consecutive ones (`join`).
pub open spec fn join(ps: Seq<Seq<char>>, sep: Seq<char>) -> Seq<char>
    decreases ps.len(),
{
    if ps.len() == 0 {
        seq![]
    } else if ps.len() == 1 {
        ps[0]
    } else {
        join(ps.drop_last(), sep) + sep + ps.last()
    }
}

/// Joins the pieces with `sep` between consecutive ones.
pub fn join_exec(ps: &Vec<Vec<char>>, sep: &[char]) -> (r: Vec<char>)
    ensures
        r@ == join(views(ps@), sep@),
{
    let mut r: Vec<char> = Vec::new();
    let mut i: usize = 0;
    while i < ps.len()
        invariant
            i <= ps@.len(),
            r@ == join(views(ps@).subrange(0, i as int), sep@),
        decreases ps.len() - i,
    {
        let ghost prefix = views(ps@).subrange(0, i + 1);
        assert(prefix.drop_last() =~= views(ps@).subrange(0, i as int));
        if i > 0 {
            let mut k: usize = 0;
            let ghost r0 = r@;
            while k < sep.len()
                invariant
                    k <= sep@.len(),
                    r@ == r0 + sep@.subrange(0, k as int),
                decreases sep.len() - k,
            {
                r.push(sep[k]);
                k += 1;
            }
            assert(sep@.subrange(0, sep@.len() as int) =~= sep@);
        }
        let ghost r1 = r@;
        let piece = &ps[i];
        let mut k: usize = 0;
        while k < piece.len()
            invariant
                k <= piece@.len(),
                r@ == r1 + piece@.subrange(0, k as int),
            decreases piece.len() - k,
        {
            r.push(piece[k]);
            k += 1;
        }
        assert(piece@.subrange(0, piece@.len() as int) =~= piece@);
        if i == 0 {
            assert(r@ =~= prefix[0]);
        } else {
            assert(r@ =~= join(prefix.drop_last(), sep@) + sep@ + prefix.last());
        }
        i += 1;
    }
    assert(views(ps@).subrange(0, ps@.len() as int) =~= views(ps@));
    r
}

/// The ASCII lowercase of `c` (`char::to_ascii_lowercase`).
pub open spec fn ascii_lower(c: char) -> char {
    if 'A' <= c && c <= 'Z' {
        ((c as u32) + 32) as char
    } else {
        c
    }
}

/// Computes `ascii_lower(c)`.
pub fn to_ascii_lower(c: char) -> (r: char)
    ensures
        r == ascii_lower(c),
{
    if 'A' <= c && c <= 'Z' {
        ((c as u8) + 32) as char
    } else {
        c
    }
}

/// `a` and `b` are equal when ASCII letters are compared without case
/// (`str::eq_ignore_ascii_case`).
pub open spec fn eq_ignore_ascii_case(a: Seq<char>, b: Seq<char>) -> bool {
    a.len() == b.len() && forall|i: int| 0 <= i < a.len() ==> ascii_lower(a[i]) == ascii_lower(b[i])
}

/// Decides `eq_ignore_ascii_case(a, b)`.
pub fn eq_ignore_ascii_case_exec(a: &[char], b: &[char]) -> (r: bool)
    ensures
        r == eq_ignore_ascii_case(a@, b@),
{
    if a.len() != b.len() {
        return false;
    }
    let mut i: usize = 0;
    while i < a.len()
        invariant
            i <= a@.len(),
            a@.len() == b@.len(),
            forall|k: int| 0 <= k < i ==> ascii_lower(a@[k]) == ascii_lower(b@[k]),
        decreases a.len() - i,
    {
        if to_ascii_lower(a[i]) != to_ascii_lower(b[i]) {
            return false;
        }
        i += 1;
    }
    true
}

/// `p` occurs in `s` at index `i` when ASCII letters are compared without case.
pub open spec fn occurs_at_ignore_ascii_case(s: Seq<char>, p: Seq<char>, i: int) -> bool {
    0 <= i && i + p.len() <= s.len() && eq_ignore_ascii_case(s.subrange(i, i + p.len()), p)
}

/// The decimal digit character for `d < 10`.
pub open spec fn digit_char(d: nat) -> char {
    if d == 0 {
        '0'
    } else if d == 1 {
        '1'
    } else if d == 2 {
        '2'
    } else if d == 3 {
        '3'
    } else if d == 4 {
        '4'
    } else if d == 5 {
        '5'
    } else if d == 6 {
        '6'
    } else if d == 7 {
        '7'
    } else if d == 8 {
        '8'
    } else {
        '9'
    }
}

/// The decimal representation of `n`, without leading zeros.
pub open spec fn decimal(n: nat) -> Seq<char>
    decreases n,
{
    if n < 10 {
        seq![digit_char(n)]
    } else {
        decimal(n / 10).push(digit_char(n % 10))
    }
}

fn digit_exec(d: u64) -> (r: char)
    requires
        d < 10,
    ensures
        r == digit_char(d as nat),
{
    if d == 0 {
        '0'
    } else if d == 1 {
        '1'
    } else if d == 2 {
        '2'
    } else if d == 3 {
        '3'
    } else if d == 4 {
        '4'
    } else if d == 5 {
        '5'
    } else if d == 6 {
        '6'
    } else if d == 7 {
        '7'
    } else if d == 8 {
        '8'
    } else {
        '9'
    }
}

/// The decimal representation of `n` (`u64`'s `Display`).
pub fn decimal_exec(n: u64) -> (r: Vec<char>)
    ensures
        r@ == decimal(n as nat),
    decreases n,
{
    if n < 10 {
        vec![digit_exec(n)]
    } else {
        let mut r = decimal_exec(n / 10);
        r.push(digit_exec(n % 10));
        r
    }
}

/// Appends all of `tail` to `v`.
pub fn extend_chars(v: &mut Vec<char>, tail: &[char])
    ensures
        final(v)@ == old(v)@ + tail@,
{
    let mut k: usize = 0;
    while k < tail.len()
        invariant
            k <= tail@.len(),
            v@ == old(v)@ + tail@.subrange(0, k as int),
        decreases tail.len() - k,
    {
        v.push(tail[k]);
        k += 1;
    }
    assert(tail@.subrange(0, tail@.len() as int) =~= tail@);
}


/// Viewing commutes with pushing.
pub proof fn lemma_views_push(v: Seq<Vec<char>>, x: Vec<char>)
    ensures
        views(v.push(x)) == views(v).push(x@),
{
    assert(views(v.push(x)) =~= views(v).push(x@));
}

/// Viewing commutes with pushing.
pub proof fn lemma_str_views_push(v: Seq<String>, x: String)
    ensures
        str_views(v.push(x)) == str_views(v).push(x@),
{
    assert(str_views(v.push(x)) =~= str_views(v).push(x@));
}

/// The views of a sequence of strings.
pub open spec fn str_views(v: Seq<String>) -> Seq<Seq<char>> {
    v.map_values(|x: String| x@)
}

/// Turns each character vector into a `String`.
pub fn to_strings(v: &Vec<Vec<char>>) -> (r: Vec<String>)
    ensures
        str_views(r@) == views(v@),
{
    let mut r: Vec<String> = Vec::new();
    let mut i: usize = 0;
    while i < v.len()
        invariant
            i <= v@.len(),
            r@.len() == i,
            str_views(r@) == views(v@).subrange(0, i as int),
        decreases v.len() - i,
    {
        let s = from_chars(v[i].as_slice());
        proof {
            assert(s@ == views(v@)[i as int]);
            assert forall|k: int| 0 <= k < i + 1 implies #[trigger] str_views(r@.push(s))[k]
                == views(v@).subrange(0, i + 1)[k] by {
                if k < i {
                    assert(r@.push(s)[k] == r@[k]);
                    assert(str_views(r@)[k] == views(v@).subrange(0, i as int)[k]);
                }
            }
            assert(str_views(r@.push(s)) =~= views(v@).subrange(0, i + 1));
        }
        r.push(s);
        i += 1;
    }
    assert(views(v@).subrange(0, v@.len() as int) =~= views(v@));
    r
}

/// Turns each string into a character vector.
pub fn to_char_vecs(v: &[String]) -> (r: Vec<Vec<char>>)
    ensures
        views(r@) == str_views(v@),
{
    let mut r: Vec<Vec<char>> = Vec::new();
    let mut i: usize = 0;
    while i < v.len()
        invariant
            i <= v@.len(),
            r@.len() == i,
            views(r@) == str_views(v@).subrange(0, i as int),
        decreases v.len() - i,
    {
        let c = to_chars(v[i].as_str());
        proof {
            assert(c@ == str_views(v@)[i as int]);
            assert forall|k: int| 0 <= k < i + 1 implies #[trigger] views(r@.push(c))[k]
                == str_views(v@).subrange(0, i + 1)[k] by {
                if k < i {
                    assert(r@.push(c)[k] == r@[k]);
                    assert(views(r@)[k] == str_views(v@).subrange(0, i as int)[k]);
                }
            }
            assert(views(r@.push(c)) =~= str_views(v@).subrange(0, i + 1));
        }
        r.push(c);
        i += 1;
    }
    assert(str_views(v@).subrange(0, v@.len() as int) =~= str_views(v@));
    r
}


/// `i` is the first index of `s` whose element satisfies `pred`.
pub open spec fn is_first_match<A>(s: Seq<A>, pred: spec_fn(A) -> bool, i: int) -> bool {
    &&& 0 <= i < s.len()
    &&& pred(s[i])
    &&& forall|j: int| 0 <= j < i ==> !pred(s[j])
}

/// The first index of `s` whose element satisfies `pred`, if any.
pub open spec fn first_match<A>(s: Seq<A>, pred: spec_fn(A) -> bool) -> Option<int> {
    if exists|i: int| is_first_match(s, pred, i) {
        Some(choose|i: int| is_first_match(s, pred, i))
    } else {
        None
    }
}

/// There is at most one first match.
pub proof fn lemma_first_match_unique<A>(s: Seq<A>, pred: spec_fn(A) -> bool, i: int)
    requires
        is_first_match(s, pred, i),
    ensures
        first_match(s, pred) == Some(i),
{
    let k = choose|k: int| is_first_match(s, pred, k);
    assert(is_first_match(s, pred, k));
    if k < i {
        assert(!pred(s[k]));
    } else if i < k {
        assert(!pred(s[i]));
    }
}

/// A match implies a first match.
pub proof fn lemma_first_match_exists<A>(s: Seq<A>, pred: spec_fn(A) -> bool, i: int)
    requires
        0 <= i < s.len(),
        pred(s[i]),
    ensures
        first_match(s, pred) is Some,
    decreases i,
{
    if forall|j: int| 0 <= j < i ==> !pred(s[j]) {
        assert(is_first_match(s, pred, i));
    } else {
        let j = choose|j: int| 0 <= j < i && pred(s[j]);
        lemma_first_match_exists(s, pred, j);
    }
}

/// No element satisfies `pred`: there is no first match.
pub proof fn lemma_first_match_none<A>(s: Seq<A>, pred: spec_fn(A) -> bool)
    requires
        forall|j: int| 0 <= j < s.len() ==> !pred(s[j]),
    ensures
        first_match(s, pred) is None,
{
}

/// `i` is the last index of `s` whose element satisfies `pred`.
pub open spec fn is_last_match<A>(s: Seq<A>, pred: spec_fn(A) -> bool, i: int) -> bool {
    &&& 0 <= i < s.len()
    &&& pred(s[i])
    &&& forall|j: int| i < j < s.len() ==> !pred(s[j])
}

/// The last index of `s` whose element satisfies `pred`, if any.
pub open spec fn last_match<A>(s: Seq<A>, pred: spec_fn(A) -> bool) -> Option<int> {
    if exists|i: int| is_last_match(s, pred, i) {
        Some(choose|i: int| is_last_match(s, pred, i))
    } else {
        None
    }
}

/// There is at most one last match.
pub proof fn lemma_last_match_unique<A>(s: Seq<A>, pred: spec_fn(A) -> bool, i: int)
    requires
        is_last_match(s, pred, i),
    ensures
        last_match(s, pred) == Some(i),
{
    let k = choose|k: int| is_last_match(s, pred, k);
    assert(is_last_match(s, pred, k));
    if k < i {
        assert(!pred(s[i]));
    } else if i < k {
        assert(!pred(s[k]));
    }
}

/// Decides whether two character sequences are equal.
pub fn chars_eq(a: &[char], b: &[char]) -> (r: bool)
    ensures
        r == (a@ == b@),
{
    if a.len() != b.len() {
        return false;
    }
    let r = occurs_at_exec(a, b, 0);
    if r {
        assert(a@.subrange(0, b@.len() as int) =~= a@);
    } else {
        assert(a@.subrange(0, b@.len() as int) =~= a@);
    }
    r
}

/// Decides whether `v` holds the sequence `x`.
pub fn contains_chars(v: &Vec<Vec<char>>, x: &[char]) -> (r: bool)
    ensures
        r == views(v@).contains(x@),
{
    let mut i: usize = 0;
    while i < v.len()
        invariant
            i <= v@.len(),
            forall|k: int| 0 <= k < i ==> views(v@)[k] != x@,
        decreases v.len() - i,
    {
        if chars_eq(v[i].as_slice(), x) {
            assert(views(v@)[i as int] == x@);
            return true;
        }
        i += 1;
    }
    false
}

/// Filtering a sequence whose elements all pass leaves it unchanged.
pub proof fn lemma_filter_keeps_all<A>(s: Seq<A>, pred: spec_fn(A) -> bool)
    requires
        forall|i: int| 0 <= i < s.len() ==> pred(#[trigger] s[i]),
    ensures
        s.filter(pred) == s,
    decreases s.len(),
{
    reveal_with_fuel(Seq::filter, 1);
    if s.len() > 0 {
        let d = s.drop_last();
        assert forall|i: int| 0 <= i < d.len() implies pred(#[trigger] d[i]) by {
            assert(d[i] == s[i]);
        }
        lemma_filter_keeps_all(d, pred);
        assert(pred(s[s.len() - 1]));
        assert(d.push(s.last()) =~= s);
    }
}

/// When some element satisfies `pred`, the last match exists and is at or
/// after it.
pub proof fn lemma_last_match_at_least<A>(s: Seq<A>, pred: spec_fn(A) -> bool, i: int)
    requires
        0 <= i < s.len(),
        pred(s[i]),
    ensures
        last_match(s, pred) matches Some(j) && i <= j && is_last_match(s, pred, j),
    decreases s.len() - i,
{
    if forall|j: int| i < j < s.len() ==> !pred(s[j]) {
        assert(is_last_match(s, pred, i));
        lemma_last_match_unique(s, pred, i);
    } else {
        let j = choose|j: int| i < j < s.len() && pred(s[j]);
        lemma_last_match_at_least(s, pred, j);
    }
}

} // verus!
