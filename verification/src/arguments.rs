//! Construction of the launch command line: placeholder substitution in the
//! version manifest's arguments, JVM option overrides and removals, and the
//! classpath.

use vstd::prelude::*;
use vstd::string::StringExecFns;
use vstd::hash_map::StringHashMap;
use crate::system::{
    classpath_separator, file_name, file_name_exec, get_path_separator, join_path, join_path_exec,
    spec_classpath_separator, OperatingSystem,
};
use crate::version::{InstanceInfo, Library, Version};
use crate::text::{
    chars_eq, contains, contains_chars, contains_exec, copy_range, ends_with, ends_with_exec,
    extend_chars, find_from, first_match, first_occurrence, from_chars, is_first_match, is_first_occurrence,
    is_last_match, join, join_exec, last_match, lemma_first_match_exists, lemma_first_match_none, lemma_first_occurrence_none,
    lemma_first_occurrence_unique,
    lemma_filter_keeps_all, lemma_first_match_unique, lemma_last_match_at_least, lemma_last_match_unique, lemma_str_views_push, lemma_views_push,
    occurs_at, split_char, split_char_exec, starts_with, starts_with_exec, str_views,
    to_char_vecs, to_chars, views,
};

verus! {

/// The launch-argument variables: placeholder names and their values.
pub struct VariableMap {
    map: StringHashMap<String>,
}

impl View for VariableMap {
    type V = Map<Seq<char>, Seq<char>>;

    closed spec fn view(&self) -> Map<Seq<char>, Seq<char>> {
        self.map@.map_values(|v: String| v@)
    }
}

impl VariableMap {
    /// A map with no variable.
    pub fn new() -> (r: Self)
        ensures
            r@ == Map::<Seq<char>, Seq<char>>::empty(),
    {
        let r = VariableMap { map: StringHashMap::new() };
        assert(r@ =~= Map::<Seq<char>, Seq<char>>::empty());
        r
    }

    /// Sets `key` to `value`, replacing an earlier value.
    pub fn insert(&mut self, key: String, value: String)
        ensures
            final(self)@ == old(self)@.insert(key@, value@),
    {
        self.map.insert(key, value);
        assert(self@ =~= old(self)@.insert(key@, value@));
    }

    /// The value of `key`, if it is set.
    pub fn get(&self, key: &str) -> (r: Option<String>)
        ensures
            match r {
                Some(v) => self@.contains_key(key@) && v@ == self@[key@],
                None => !self@.contains_key(key@),
            },
    {
        match self.map.get(key) {
            Some(v) => Some(v.clone()),
            None => None,
        }
    }

    /// The value of `key`, or the empty string when it is not set.
    pub fn get_or_default(&self, key: &str) -> (r: String)
        ensures
            r@ == value_or_empty(self@, key@),
    {
        match self.map.get(key) {
            Some(v) => v.clone(),
            None => String::new(),
        }
    }
}

/// The value of `key` in `vars`, or the empty sequence.
pub open spec fn value_or_empty(vars: Map<Seq<char>, Seq<char>>, key: Seq<char>) -> Seq<char> {
    if vars.contains_key(key) {
        vars[key]
    } else {
        seq![]
    }
}

/// What a placeholder `${key}` (written `original` in the input) becomes:
/// the variable's value when it is set, the placeholder itself otherwise.
pub open spec fn placeholder_value(
    vars: Map<Seq<char>, Seq<char>>,
    key: Seq<char>,
    original: Seq<char>,
) -> Seq<char> {
    if vars.contains_key(key) {
        vars[key]
    } else {
        original
    }
}

/// `s` with each placeholder `${key}` replaced, from left to right: a
/// placeholder runs from `${` to the first `}` after it; text after the last
/// complete placeholder is kept as it is.
pub open spec fn substitute(s: Seq<char>, vars: Map<Seq<char>, Seq<char>>) -> Seq<char>
    decreases s.len(),
{
    match first_occurrence(s, "${"@, 0) {
        None => s,
        Some(p) => match first_occurrence(s, "}"@, p) {
            None => s,
            Some(e) => if 0 <= p && p + 2 <= e < s.len() {
                s.subrange(0, p) + placeholder_value(vars, s.subrange(p + 2, e), s.subrange(p, e + 1))
                    + substitute(s.subrange(e + 1, s.len() as int), vars)
            } else {
                s
            },
        },
    }
}

/// Some `}` lies in `s[a..b]`.
pub open spec fn close_in(s: Seq<char>, a: int, b: int) -> bool {
    exists|k: int| a <= k < b && 0 <= k < s.len() && #[trigger] s[k] == '}'
}

/// No placeholder contains the start `${` of another one that is closed
/// later. Substitution fails on such input (a slice whose start lies past
/// its end), so it is left out.
pub open spec fn no_nested_placeholder(s: Seq<char>) -> bool {
    forall|p: int, q: int|
        #![trigger occurs_at(s, "${"@, p), occurs_at(s, "${"@, q)]
        occurs_at(s, "${"@, p) && occurs_at(s, "${"@, q) && p < q && close_in(s, q, s.len() as int)
            ==> close_in(s, p, q)
}

/// Decides `no_nested_placeholder(input@)`, so that a caller can refuse
/// input that substitution cannot handle.
pub fn placeholders_well_nested(input: &str) -> (r: bool)
    ensures
        r == no_nested_placeholder(input@),
{
    let s = to_chars(input);
    let open = to_chars("${");
    let close = to_chars("}");
    proof {
        reveal_strlit("}");
    }
    let ghost sv = s@;
    // Index of the last `}`, if any.
    let mut last_close: Option<usize> = None;
    let mut i: usize = 0;
    while i < s.len()
        invariant
            i <= s@.len(),
            match last_close {
                Some(l) => l < i && s@[l as int] == '}' && !close_in(s@, l + 1, i as int),
                None => !close_in(s@, 0, i as int),
            },
        decreases s.len() - i,
    {
        if s[i] == '}' {
            last_close = Some(i);
        }
        i += 1;
    }
    let mut pos: usize = 0;
    let mut prev: Option<usize> = None;
    loop
        invariant
            pos <= s@.len(),
            open@ == "${"@,
            close@ == "}"@,
            sv == s@,
            sv == input@,
            match last_close {
                Some(l) => l < s@.len() && s@[l as int] == '}' && !close_in(s@, l + 1, s@.len() as int),
                None => !close_in(s@, 0, s@.len() as int),
            },
            match prev {
                Some(p) => p < pos && occurs_at(s@, "${"@, p as int) && forall|m: int|
                    p < m < pos ==> !occurs_at(s@, "${"@, m),
                None => forall|m: int| 0 <= m < pos ==> !occurs_at(s@, "${"@, m),
            },
            forall|p1: int, q1: int|
                #![trigger occurs_at(s@, "${"@, p1), occurs_at(s@, "${"@, q1)]
                occurs_at(s@, "${"@, p1) && occurs_at(s@, "${"@, q1) && p1 < q1 < pos && close_in(
                    s@,
                    q1,
                    s@.len() as int,
                ) ==> close_in(s@, p1, q1),
        decreases s.len() - pos,
    {
        proof {
            reveal_strlit("}");
            reveal_strlit("${");
        }
        match find_from(s.as_slice(), open.as_slice(), pos) {
            None => {
                assert forall|p1: int, q1: int|
                    #![trigger occurs_at(s@, "${"@, p1), occurs_at(s@, "${"@, q1)]
                    occurs_at(s@, "${"@, p1) && occurs_at(s@, "${"@, q1) && p1 < q1 && close_in(
                        s@,
                        q1,
                        s@.len() as int,
                    ) implies close_in(s@, p1, q1) by {
                    assert(q1 < pos);
                }
                return true;
            },
            Some(q) => {
                let later_close = match last_close {
                    Some(l) => q <= l,
                    None => false,
                };
                assert(later_close == close_in(s@, q as int, s@.len() as int)) by {
                    match last_close {
                        Some(l) => {
                            if q <= l {
                                assert(s@[l as int] == '}');
                            }
                            if close_in(s@, q as int, s@.len() as int) {
                                let k = choose|k: int| q <= k < s@.len() && 0 <= k < s@.len() && #[trigger] s@[k] == '}';
                                if k > l {
                                    assert(close_in(s@, l + 1, s@.len() as int));
                                }
                            }
                        },
                        None => {
                            if close_in(s@, q as int, s@.len() as int) {
                                let k = choose|k: int| q <= k < s@.len() && 0 <= k < s@.len() && #[trigger] s@[k] == '}';
                                assert(close_in(s@, 0, s@.len() as int));
                            }
                        },
                    }
                }
                match prev {
                    Some(p) => {
                        if later_close {
                            let found = find_from(s.as_slice(), close.as_slice(), p);
                            let ok = match found {
                                Some(e) => e < q,
                                None => false,
                            };
                            assert(ok == close_in(s@, p as int, q as int)) by {
                                if close_in(s@, p as int, q as int) {
                                    let k = choose|k: int| p <= k < q && 0 <= k < s@.len() && #[trigger] s@[k] == '}';
                                    assert(s@.subrange(k, k + 1) =~= "}"@);
                                    assert(occurs_at(s@, "}"@, k));
                                }
                                match found {
                                    Some(e) => {
                                        assert(s@.subrange(e as int, e + 1)[0] == s@[e as int]);
                                        if e < q {
                                            assert(s@[e as int] == '}');
                                        }
                                    },
                                    None => {},
                                }
                            }
                            if !ok {
                                assert(!no_nested_placeholder(input@)) by {
                                    assert(occurs_at(s@, "${"@, p as int));
                                    assert(occurs_at(s@, "${"@, q as int));
                                }
                                return false;
                            }
                        }
                        assert forall|p1: int, q1: int|
                            #![trigger occurs_at(s@, "${"@, p1), occurs_at(s@, "${"@, q1)]
                            occurs_at(s@, "${"@, p1) && occurs_at(s@, "${"@, q1) && p1 < q1 < q + 1
                                && close_in(s@, q1, s@.len() as int) implies close_in(s@, p1, q1) by {
                            if q1 == q {
                                if p1 < p {
                                    assert(close_in(s@, p as int, s@.len() as int)) by {
                                        let k = choose|k: int| q1 <= k < s@.len() && 0 <= k < s@.len() && #[trigger] s@[k] == '}';
                                    }
                                    let k = choose|k: int| p1 <= k < p && 0 <= k < s@.len() && #[trigger] s@[k] == '}';
                                } else if p1 > p {
                                    assert(p1 < pos);
                                }
                            } else {
                                assert(q1 < pos);
                            }
                        }
                    },
                    None => {
                        assert forall|p1: int, q1: int|
                            #![trigger occurs_at(s@, "${"@, p1), occurs_at(s@, "${"@, q1)]
                            occurs_at(s@, "${"@, p1) && occurs_at(s@, "${"@, q1) && p1 < q1 < q + 1
                                && close_in(s@, q1, s@.len() as int) implies close_in(s@, p1, q1) by {
                            if q1 == q {
                                assert(p1 < pos);
                            } else {
                                assert(q1 < pos);
                            }
                        }
                    },
                }
                prev = Some(q);
                pos = q + 1;
            },
        }
    }
}

/// Replaces the `${key}` placeholders of `input` with the values in
/// `variables`; a placeholder whose key is not set is kept as it is.
pub fn replace_variables_cow(input: &str, variables: &VariableMap) -> (r: String)
    requires
        no_nested_placeholder(input@),
    ensures
        r@ == substitute(input@, variables@),
{
    let s = to_chars(input);
    let open = to_chars("${");
    let close = to_chars("}");
    let mut out: Vec<char> = Vec::new();
    let mut pos: usize = 0;
    assert(s@.subrange(0, s@.len() as int) =~= s@);
    loop
        invariant_except_break
            pos <= s@.len(),
            open@ == "${"@,
            close@ == "}"@,
            substitute(s@, variables@) == out@ + substitute(
                s@.subrange(pos as int, s@.len() as int),
                variables@,
            ),
        ensures
            out@ == substitute(s@, variables@),
        decreases s.len() - pos,
    {
        let rest = vstd::slice::slice_subrange(s.as_slice(), pos, s.len());
        match find_from(rest, open.as_slice(), 0) {
            None => {
                extend_chars(&mut out, rest);
                break;
            },
            Some(p) => {
                match find_from(rest, close.as_slice(), p) {
                    None => {
                        extend_chars(&mut out, rest);
                        break;
                    },
                    Some(e) => {
                        proof {
                            reveal_strlit("${");
                            reveal_strlit("}");
                            assert(occurs_at(rest@, "${"@, p as int));
                            assert(rest@.subrange(p as int, p + 2) =~= "${"@);
                            assert(rest@[p as int] == '$') by {
                                assert(rest@.subrange(p as int, p + 2)[0] == rest@[p as int]);
                            }
                            assert(rest@[p + 1] == '{') by {
                                assert(rest@.subrange(p as int, p + 2)[1] == rest@[p + 1]);
                            }
                            assert(occurs_at(rest@, "}"@, e as int));
                            assert(rest@[e as int] == '}') by {
                                assert(rest@.subrange(e as int, e + 1)[0] == rest@[e as int]);
                            }
                            assert(e >= p + 2) by {
                                if e == p {
                                    assert(rest@[p as int] == '}');
                                } else if e == p + 1 {
                                    assert(rest@[p + 1] == '}');
                                }
                            }
                        }
                        let head = vstd::slice::slice_subrange(rest, 0, p);
                        extend_chars(&mut out, head);
                        let key_chars = copy_range(rest, p + 2, e);
                        let key = from_chars(key_chars.as_slice());
                        match variables.get(key.as_str()) {
                            Some(v) => {
                                let vc = to_chars(v.as_str());
                                extend_chars(&mut out, vc.as_slice());
                            },
                            None => {
                                let orig = vstd::slice::slice_subrange(rest, p, e + 1);
                                extend_chars(&mut out, orig);
                            },
                        }
                        proof {
                            assert(rest@.subrange(e + 1, rest@.len() as int) =~= s@.subrange(
                                pos + e + 1,
                                s@.len() as int,
                            ));
                        }
                        pos = pos + e + 1;
                    },
                }
            },
        }
    }
    from_chars(out.as_slice())
}


/// Substitutes the placeholders of every argument.
pub fn replace_variables_in_vec(args: &[String], variables: &VariableMap) -> (r: Vec<String>)
    requires
        forall|i: int| 0 <= i < args@.len() ==> no_nested_placeholder(#[trigger] args@[i]@),
    ensures
        str_views(r@) == str_views(args@).map_values(|a: Seq<char>| substitute(a, variables@)),
{
    let mut r: Vec<String> = Vec::new();
    let mut i: usize = 0;
    while i < args.len()
        invariant
            i <= args@.len(),
            r@.len() == i,
            forall|k: int| 0 <= k < args@.len() ==> no_nested_placeholder(#[trigger] args@[k]@),
            forall|k: int| 0 <= k < i ==> #[trigger] r@[k]@ == substitute(args@[k]@, variables@),
        decreases args.len() - i,
    {
        let v = replace_variables_cow(args[i].as_str(), variables);
        r.push(v);
        i += 1;
    }
    assert(str_views(r@) =~= str_views(args@).map_values(|a: Seq<char>| substitute(a, variables@)));
    r
}

/// A JVM option built from a key and a value: `-key` for an empty value,
/// `-keyvalue` for `X` options such as `Xmx`, `-key=value` otherwise.
pub open spec fn jvm_option(key: Seq<char>, value: Seq<char>) -> Seq<char> {
    if value.len() == 0 {
        "-"@ + key
    } else if starts_with(key, "X"@) && !contains(key, ":"@) && !contains(key, "="@) {
        "-"@ + key + value
    } else {
        "-"@ + key + "="@ + value
    }
}

/// Formats a JVM option with the separator its kind calls for.
pub fn format_jvm_option(key: &str, value: &str) -> (r: String)
    ensures
        r@ == jvm_option(key@, value@),
{
    let k = to_chars(key);
    let v = to_chars(value);
    let mut out = to_chars("-");
    extend_chars(&mut out, k.as_slice());
    if v.len() == 0 {
        return from_chars(out.as_slice());
    }
    let x = to_chars("X");
    let colon = to_chars(":");
    let eq = to_chars("=");
    if starts_with_exec(k.as_slice(), x.as_slice()) && !contains_exec(k.as_slice(), colon.as_slice())
        && !contains_exec(k.as_slice(), eq.as_slice()) {
        extend_chars(&mut out, v.as_slice());
    } else {
        extend_chars(&mut out, eq.as_slice());
        extend_chars(&mut out, v.as_slice());
    }
    from_chars(out.as_slice())
}

/// The part of `s` before its first `=` (all of it when there is none).
pub open spec fn before_eq(s: Seq<char>) -> Seq<char> {
    match first_occurrence(s, "="@, 0) {
        Some(i) => if 0 <= i <= s.len() {
            s.subrange(0, i)
        } else {
            s
        },
        None => s,
    }
}

/// Computes `before_eq(s)`.
pub fn before_eq_exec(s: &[char]) -> (r: Vec<char>)
    ensures
        r@ == before_eq(s@),
{
    let eq = to_chars("=");
    match find_from(s, eq.as_slice(), 0) {
        Some(i) => copy_range(s, 0, i),
        None => {
            let r = copy_range(s, 0, s.len());
            assert(s@.subrange(0, s@.len() as int) =~= s@);
            r
        },
    }
}

/// The arguments after one JVM override: the first argument that starts with
/// `-` and the key's part before `=` is replaced by the formatted option;
/// without one, the option goes right before the first `-cp`, or at the end.
pub open spec fn apply_jvm_override(args: Seq<Seq<char>>, key: Seq<char>, value: Seq<char>) -> Seq<Seq<char>> {
    let option = jvm_option(key, value);
    let prefix = "-"@ + before_eq(key);
    match first_match(args, |a: Seq<char>| starts_with(a, prefix)) {
        Some(j) => args.update(j, option),
        None => match first_match(args, |a: Seq<char>| a == "-cp"@) {
            Some(c) => args.insert(c, option),
            None => args.push(option),
        },
    }
}

/// The arguments after the overrides, applied in order.
pub open spec fn apply_jvm_overrides_spec(
    args: Seq<Seq<char>>,
    overrides: Seq<(Seq<char>, Seq<char>)>,
) -> Seq<Seq<char>>
    decreases overrides.len(),
{
    if overrides.len() == 0 {
        args
    } else {
        let prev = apply_jvm_overrides_spec(args, overrides.drop_last());
        apply_jvm_override(prev, overrides.last().0, overrides.last().1)
    }
}

/// The views of key/value string pairs.
pub open spec fn pair_views(v: Seq<(String, String)>) -> Seq<(Seq<char>, Seq<char>)> {
    v.map_values(|p: (String, String)| (p.0@, p.1@))
}

/// The index of the first argument that starts with `prefix`.
fn position_starting_with(args: &Vec<String>, prefix: &[char]) -> (r: Option<usize>)
    ensures
        match r {
            Some(j) => first_match(str_views(args@), |a: Seq<char>| starts_with(a, prefix@))
                == Some(j as int),
            None => first_match(str_views(args@), |a: Seq<char>| starts_with(a, prefix@)) is None,
        },
        r matches Some(j) ==> j < args@.len(),
{
    let ghost pred = |a: Seq<char>| starts_with(a, prefix@);
    let mut j: usize = 0;
    while j < args.len()
        invariant
            j <= args@.len(),
            pred == (|a: Seq<char>| starts_with(a, prefix@)),
            forall|k: int| 0 <= k < j ==> !pred(#[trigger] str_views(args@)[k]),
        decreases args.len() - j,
    {
        let a = to_chars(args[j].as_str());
        if starts_with_exec(a.as_slice(), prefix) {
            proof {
                assert(str_views(args@)[j as int] == a@);
                lemma_first_match_unique(str_views(args@), pred, j as int);
            }
            return Some(j);
        }
        assert(str_views(args@)[j as int] == a@);
        j += 1;
    }
    proof {
        lemma_first_match_none(str_views(args@), pred);
    }
    None
}

/// The index of the first argument equal to `target`.
fn position_equal(args: &Vec<String>, target: &[char]) -> (r: Option<usize>)
    ensures
        match r {
            Some(j) => first_match(str_views(args@), |a: Seq<char>| a == target@) == Some(j as int),
            None => first_match(str_views(args@), |a: Seq<char>| a == target@) is None,
        },
        r matches Some(j) ==> j < args@.len(),
{
    let ghost pred = |a: Seq<char>| a == target@;
    let mut j: usize = 0;
    while j < args.len()
        invariant
            j <= args@.len(),
            pred == (|a: Seq<char>| a == target@),
            forall|k: int| 0 <= k < j ==> !pred(#[trigger] str_views(args@)[k]),
        decreases args.len() - j,
    {
        let a = to_chars(args[j].as_str());
        if chars_eq(a.as_slice(), target) {
            proof {
                assert(str_views(args@)[j as int] == a@);
                lemma_first_match_unique(str_views(args@), pred, j as int);
            }
            return Some(j);
        }
        assert(str_views(args@)[j as int] == a@);
        j += 1;
    }
    proof {
        lemma_first_match_none(str_views(args@), pred);
    }
    None
}

/// Applies JVM overrides in order, writing the leading `-` of each option:
/// an option already present (same key before `=`) is replaced in place,
/// a new one goes right before `-cp` so that the classpath stays last.
pub fn apply_jvm_overrides(jvm_args: &mut Vec<String>, jvm_overrides: &[(String, String)])
    ensures
        str_views(final(jvm_args)@) == apply_jvm_overrides_spec(
            str_views(old(jvm_args)@),
            pair_views(jvm_overrides@),
        ),
{
    let cp = to_chars("-cp");
    let mut i: usize = 0;
    while i < jvm_overrides.len()
        invariant
            i <= jvm_overrides@.len(),
            cp@ == "-cp"@,
            str_views(jvm_args@) == apply_jvm_overrides_spec(
                str_views(old(jvm_args)@),
                pair_views(jvm_overrides@).subrange(0, i as int),
            ),
        decreases jvm_overrides.len() - i,
    {
        let key = &jvm_overrides[i].0;
        let value = &jvm_overrides[i].1;
        let option = format_jvm_option(key.as_str(), value.as_str());
        let key_chars = to_chars(key.as_str());
        let mut prefix = to_chars("-");
        let head = before_eq_exec(key_chars.as_slice());
        extend_chars(&mut prefix, head.as_slice());
        let ghost before = str_views(jvm_args@);
        proof {
            let ov = pair_views(jvm_overrides@).subrange(0, i + 1);
            assert(ov.drop_last() =~= pair_views(jvm_overrides@).subrange(0, i as int));
            assert(ov.last() == (key@, value@));
        }
        match position_starting_with(jvm_args, prefix.as_slice()) {
            Some(j) => {
                jvm_args.set(j, option);
                assert(str_views(jvm_args@) =~= before.update(j as int, option@));
            },
            None => {
                match position_equal(jvm_args, cp.as_slice()) {
                    Some(c) => {
                        jvm_args.insert(c, option);
                        assert(str_views(jvm_args@) =~= before.insert(c as int, option@));
                    },
                    None => {
                        jvm_args.push(option);
                        assert(str_views(jvm_args@) =~= before.push(option@));
                    },
                }
            },
        }
        i += 1;
    }
    assert(pair_views(jvm_overrides@).subrange(0, jvm_overrides@.len() as int) =~= pair_views(
        jvm_overrides@,
    ));
}


/// Whether `c` is numeric (`char::is_numeric`, Unicode's number categories);
/// a name for what the standard library computes.
pub uninterp spec fn char_is_numeric(c: char) -> bool;

/// Calls `char::is_numeric`.
#[verifier::external_body]
fn is_numeric(c: char) -> (r: bool)
    ensures
        r == char_is_numeric(c),
{
    c.is_numeric()
}

/// The part of `s` before its first numeric character.
pub open spec fn before_numeric(s: Seq<char>) -> Seq<char> {
    match first_match(s, |c: char| char_is_numeric(c)) {
        Some(i) => s.subrange(0, i),
        None => s,
    }
}

/// The key of a JVM option `arg` that starts with `-`: the text after the
/// dash, up to the first `=` and then up to the first numeric character
/// (`Xmx` for `-Xmx4G`, `Djava.library.path` for `-Djava.library.path=/x`).
pub open spec fn jvm_option_key(arg: Seq<char>) -> Seq<char> {
    before_numeric(before_eq(arg.drop_first()))
}

/// Whether a JVM argument survives the removals.
pub open spec fn jvm_arg_kept(removals: Seq<Seq<char>>, arg: Seq<char>) -> bool {
    !starts_with(arg, "-"@) || !removals.contains(jvm_option_key(arg))
}

/// Computes `jvm_option_key(arg)` for an argument that starts with `-`.
fn jvm_option_key_exec(arg: &[char]) -> (r: Vec<char>)
    requires
        arg@.len() > 0,
    ensures
        r@ == jvm_option_key(arg@),
{
    let stripped = vstd::slice::slice_subrange(arg, 1, arg.len());
    assert(stripped@ =~= arg@.drop_first());
    let a = before_eq_exec(stripped);
    let ghost pred = |c: char| char_is_numeric(c);
    let mut j: usize = 0;
    while j < a.len()
        invariant
            j <= a@.len(),
            arg@.len() > 0,
            a@ == before_eq(arg@.drop_first()),
            pred == (|c: char| char_is_numeric(c)),
            forall|k: int| 0 <= k < j ==> !pred(#[trigger] a@[k]),
        decreases a.len() - j,
    {
        if is_numeric(a[j]) {
            proof {
                lemma_first_match_unique(a@, pred, j as int);
                assert(before_numeric(a@) == a@.subrange(0, j as int));
            }
            let r = copy_range(a.as_slice(), 0, j);
            assert(r@ == before_numeric(a@));
            assert(a@ == before_eq(arg@.drop_first()));
            assert(jvm_option_key(arg@) == before_numeric(a@));
            return r;
        }
        j += 1;
    }
    proof {
        lemma_first_match_none(a@, pred);
    }
    let r = copy_range(a.as_slice(), 0, a.len());
    assert(a@.subrange(0, a@.len() as int) =~= a@);
    r
}

/// The JVM arguments that the removals keep, in their order.
pub open spec fn kept_jvm_args(removals: Seq<Seq<char>>, args: Seq<Seq<char>>) -> Seq<Seq<char>> {
    args.filter(|a: Seq<char>| jvm_arg_kept(removals, a))
}

/// Removes the JVM options whose key is one of `jvm_removals`; arguments
/// that do not start with `-` are kept.
pub fn apply_jvm_removals(jvm_args: &mut Vec<String>, jvm_removals: &[String])
    ensures
        str_views(final(jvm_args)@) == kept_jvm_args(str_views(jvm_removals@), str_views(old(jvm_args)@)),
{
    let removals = to_char_vecs(jvm_removals);
    let dash = to_chars("-");
    let ghost pred = |a: Seq<char>| jvm_arg_kept(str_views(jvm_removals@), a);
    let ghost src = str_views(jvm_args@);
    let mut kept: Vec<String> = Vec::new();
    let mut i: usize = 0;
    while i < jvm_args.len()
        invariant
            i <= jvm_args@.len(),
            src == str_views(jvm_args@),
            dash@ == "-"@,
            views(removals@) == str_views(jvm_removals@),
            pred == (|a: Seq<char>| jvm_arg_kept(str_views(jvm_removals@), a)),
            str_views(kept@) == src.subrange(0, i as int).filter(pred),
        decreases jvm_args.len() - i,
    {
        let a = to_chars(jvm_args[i].as_str());
        proof {
            reveal_with_fuel(Seq::filter, 1);
            assert(src.subrange(0, i + 1).drop_last() =~= src.subrange(0, i as int));
            assert(src.subrange(0, i + 1).last() == a@);
        }
        let keep = if starts_with_exec(a.as_slice(), dash.as_slice()) {
            proof {
                reveal_strlit("-");
            }
            let key = jvm_option_key_exec(a.as_slice());
            !contains_chars(&removals, key.as_slice())
        } else {
            true
        };
        assert(keep == pred(a@));
        if keep {
            let ghost k0 = kept@;
            kept.push(jvm_args[i].clone());
            proof {
                lemma_str_views_push(k0, jvm_args@[i as int]);
            }
        }
        i += 1;
    }
    assert(src.subrange(0, jvm_args@.len() as int) =~= src);
    *jvm_args = kept;
}

/// Whether a game argument survives the removals: it is none of them and
/// starts with `--` followed by none of them.
pub open spec fn game_arg_kept(removals: Seq<Seq<char>>, arg: Seq<char>) -> bool {
    forall|k: int| 0 <= k < removals.len() ==> arg != removals[k] && !starts_with(arg, "--"@ + removals[k])
}

/// The game arguments that the removals keep, in their order.
pub open spec fn kept_game_args(removals: Seq<Seq<char>>, args: Seq<Seq<char>>) -> Seq<Seq<char>> {
    args.filter(|a: Seq<char>| game_arg_kept(removals, a))
}

/// Drops the game arguments that equal a removal, or start with `--` and a
/// removal.
pub fn apply_arg_removals(game_args: Vec<String>, arg_removals: &[String]) -> (r: Vec<String>)
    ensures
        str_views(r@) == kept_game_args(str_views(arg_removals@), str_views(game_args@)),
{
    let removals = to_char_vecs(arg_removals);
    let dashes = to_chars("--");
    let ghost rs = str_views(arg_removals@);
    let ghost pred = |a: Seq<char>| game_arg_kept(rs, a);
    let ghost src = str_views(game_args@);
    let mut kept: Vec<String> = Vec::new();
    let mut i: usize = 0;
    while i < game_args.len()
        invariant
            i <= game_args@.len(),
            src == str_views(game_args@),
            rs == str_views(arg_removals@),
            dashes@ == "--"@,
            views(removals@) == rs,
            pred == (|a: Seq<char>| game_arg_kept(rs, a)),
            str_views(kept@) == src.subrange(0, i as int).filter(pred),
        decreases game_args.len() - i,
    {
        let a = to_chars(game_args[i].as_str());
        proof {
            reveal_with_fuel(Seq::filter, 1);
            assert(src.subrange(0, i + 1).drop_last() =~= src.subrange(0, i as int));
            assert(src.subrange(0, i + 1).last() == a@);
        }
        let mut keep = true;
        let mut k: usize = 0;
        while k < removals.len()
            invariant
                k <= removals@.len(),
                views(removals@) == rs,
                dashes@ == "--"@,
                keep == (forall|m: int| 0 <= m < k ==> a@ != rs[m] && !starts_with(a@, "--"@ + rs[m])),
            decreases removals.len() - k,
        {
            let mut pat = copy_range(dashes.as_slice(), 0, dashes.len());
            assert(dashes@.subrange(0, dashes@.len() as int) =~= dashes@);
            extend_chars(&mut pat, removals[k].as_slice());
            assert(views(removals@)[k as int] == removals@[k as int]@);
            if chars_eq(a.as_slice(), removals[k].as_slice()) || starts_with_exec(a.as_slice(), pat.as_slice()) {
                keep = false;
            }
            k += 1;
        }
        assert(keep == pred(a@));
        if keep {
            let ghost k0 = kept@;
            kept.push(game_args[i].clone());
            proof {
                lemma_str_views_push(k0, game_args@[i as int]);
            }
        }
        i += 1;
    }
    assert(src.subrange(0, game_args@.len() as int) =~= src);
    kept
}


/// Whether `c` is an ASCII digit.
pub open spec fn is_ascii_digit(c: char) -> bool {
    '0' <= c && c <= '9'
}

/// The artifact name of a JAR file stem, without its version: the stem cut
/// at the last `-` before its last ASCII digit (`asm-analysis` for
/// `asm-analysis-9.5`); the whole stem when there is no such dash.
pub open spec fn artifact_base(stem: Seq<char>) -> Seq<char> {
    match last_match(stem, |c: char| is_ascii_digit(c)) {
        Some(pos) => match last_match(stem.subrange(0, pos), |c: char| c == '-') {
            Some(d) => stem.subrange(0, d),
            None => stem,
        },
        None => stem,
    }
}

/// The artifact of a classpath or module-path entry: the artifact name of
/// its file name when that ends with `.jar`.
pub open spec fn jar_artifact(os: OperatingSystem, path: Seq<char>) -> Option<Seq<char>> {
    match file_name(os, path) {
        Some(n) => if ends_with(n, ".jar"@) {
            Some(artifact_base(n.subrange(0, n.len() - 4)))
        } else {
            None
        },
        None => None,
    }
}

/// The last index below `end` whose character satisfies `pred`.
fn last_index_below(s: &[char], end: usize, digit: bool) -> (r: Option<usize>)
    requires
        end <= s@.len(),
    ensures
        ({
            let t = s@.subrange(0, end as int);
            let pred = if digit {
                |c: char| is_ascii_digit(c)
            } else {
                |c: char| c == '-'
            };
            match r {
                Some(i) => last_match(t, pred) == Some(i as int),
                None => last_match(t, pred) is None,
            }
        }),
{
    let ghost t = s@.subrange(0, end as int);
    let ghost pred = if digit {
        |c: char| is_ascii_digit(c)
    } else {
        |c: char| c == '-'
    };
    let mut j = end;
    while j > 0
        invariant
            j <= end <= s@.len(),
            t == s@.subrange(0, end as int),
            pred == (if digit {
                |c: char| is_ascii_digit(c)
            } else {
                |c: char| c == '-'
            }),
            forall|k: int| j <= k < end ==> !pred(#[trigger] t[k]),
        decreases j,
    {
        let c = s[j - 1];
        let hit = if digit {
            '0' <= c && c <= '9'
        } else {
            c == '-'
        };
        assert(t[j - 1] == c);
        if hit {
            proof {
                lemma_last_match_unique(t, pred, j - 1);
            }
            return Some(j - 1);
        }
        j -= 1;
    }
    proof {
        if exists|i: int| is_last_match(t, pred, i) {
            let i = choose|i: int| is_last_match(t, pred, i);
            assert(!pred(t[i]));
        }
    }
    None
}

/// Computes `artifact_base(stem)`.
fn artifact_base_exec(stem: &[char]) -> (r: Vec<char>)
    ensures
        r@ == artifact_base(stem@),
{
    assert(stem@.subrange(0, stem@.len() as int) =~= stem@);
    match last_index_below(stem, stem.len(), true) {
        Some(pos) => {
            assert(stem@.subrange(0, pos as int).subrange(0, pos as int) =~= stem@.subrange(0, pos as int));
            match last_index_below(stem, pos, false) {
                Some(d) => copy_range(stem, 0, d),
                None => copy_range(stem, 0, stem.len()),
            }
        },
        None => copy_range(stem, 0, stem.len()),
    }
}

/// Computes `jar_artifact(os, path)`.
fn jar_artifact_exec(os: OperatingSystem, path: &[char]) -> (r: Option<Vec<char>>)
    ensures
        match r {
            Some(v) => jar_artifact(os, path@) == Some(v@),
            None => jar_artifact(os, path@) is None,
        },
{
    let jar = to_chars(".jar");
    match file_name_exec(os, path) {
        Some(n) => {
            if ends_with_exec(n.as_slice(), jar.as_slice()) {
                proof {
                    reveal_strlit(".jar");
                }
                let stem = copy_range(n.as_slice(), 0, n.len() - 4);
                Some(artifact_base_exec(stem.as_slice()))
            } else {
                None
            }
        },
        None => None,
    }
}

/// Whether a classpath entry survives the module-path filter: it is not a
/// JAR, or no module-path entry is a JAR of the same artifact.
pub open spec fn classpath_entry_kept(
    os: OperatingSystem,
    modules: Seq<Seq<char>>,
    entry: Seq<char>,
) -> bool {
    match jar_artifact(os, entry) {
        Some(b) => !exists|k: int| 0 <= k < modules.len() && jar_artifact(os, #[trigger] modules[k]) == Some(b),
        None => true,
    }
}

/// The classpath without the JARs whose artifact is already on the module
/// path (compared by artifact name, whatever the version).
pub open spec fn filtered_classpath(os: OperatingSystem, classpath: Seq<char>, modulepath: Seq<char>) -> Seq<char> {
    let sep = spec_classpath_separator(os);
    let modules = split_char(modulepath, sep);
    join(split_char(classpath, sep).filter(|e: Seq<char>| classpath_entry_kept(os, modules, e)), seq![sep])
}

/// Removes from `classpath` the JARs whose artifact already appears on
/// `modulepath`.
pub fn filter_classpath_from_modulepath(os: OperatingSystem, classpath: &str, modulepath: &str) -> (r: String)
    ensures
        r@ == filtered_classpath(os, classpath@, modulepath@),
{
    let sep = classpath_separator(os);
    let mp = to_chars(modulepath);
    let modules = split_char_exec(mp.as_slice(), sep);
    let ghost mods = views(modules@);
    let mut arts: Vec<Vec<char>> = Vec::new();
    let mut i: usize = 0;
    while i < modules.len()
        invariant
            i <= modules@.len(),
            mods == views(modules@),
            forall|b: Seq<char>| views(arts@).contains(b) <==> exists|k: int|
                0 <= k < i && jar_artifact(os, #[trigger] mods[k]) == Some(b),
        decreases modules.len() - i,
    {
        assert(mods[i as int] == modules@[i as int]@);
        match jar_artifact_exec(os, modules[i].as_slice()) {
            Some(b) => {
                let ghost a0 = views(arts@);
                proof {
                    lemma_views_push(arts@, b);
                }
                arts.push(b);
                assert forall|x: Seq<char>| views(arts@).contains(x) <==> exists|k: int|
                    0 <= k < i + 1 && jar_artifact(os, #[trigger] mods[k]) == Some(x) by {
                    if views(arts@).contains(x) {
                        if x != b@ {
                            let m = choose|m: int| 0 <= m < views(arts@).len() && views(arts@)[m] == x;
                            assert(a0.contains(x)) by {
                                assert(a0[m] == x);
                            }
                        }
                    }
                    if exists|k: int| 0 <= k < i + 1 && jar_artifact(os, #[trigger] mods[k]) == Some(x) {
                        let k = choose|k: int| 0 <= k < i + 1 && jar_artifact(os, #[trigger] mods[k]) == Some(x);
                        if k < i {
                            assert(a0.contains(x));
                            let m = choose|m: int| 0 <= m < a0.len() && a0[m] == x;
                            assert(views(arts@)[m] == x);
                        } else {
                            assert(views(arts@)[a0.len() as int] == x);
                        }
                    }
                }
            },
            None => {
                assert forall|x: Seq<char>| views(arts@).contains(x) <==> exists|k: int|
                    0 <= k < i + 1 && jar_artifact(os, #[trigger] mods[k]) == Some(x) by {
                    if exists|k: int| 0 <= k < i + 1 && jar_artifact(os, #[trigger] mods[k]) == Some(x) {
                        let k = choose|k: int| 0 <= k < i + 1 && jar_artifact(os, #[trigger] mods[k]) == Some(x);
                        assert(k < i);
                    }
                }
            },
        }
        i += 1;
    }
    let cp = to_chars(classpath);
    let entries = split_char_exec(cp.as_slice(), sep);
    let ghost es = views(entries@);
    let ghost pred = |e: Seq<char>| classpath_entry_kept(os, mods, e);
    let mut kept: Vec<Vec<char>> = Vec::new();
    let mut j: usize = 0;
    while j < entries.len()
        invariant
            j <= entries@.len(),
            es == views(entries@),
            es == split_char(classpath@, spec_classpath_separator(os)),
            sep == spec_classpath_separator(os),
            mods == views(modules@),
            mods == split_char(modulepath@, spec_classpath_separator(os)),
            pred == (|e: Seq<char>| classpath_entry_kept(os, mods, e)),
            forall|b: Seq<char>| views(arts@).contains(b) <==> exists|k: int|
                0 <= k < mods.len() && jar_artifact(os, #[trigger] mods[k]) == Some(b),
            views(kept@) == es.subrange(0, j as int).filter(pred),
        decreases entries.len() - j,
    {
        proof {
            reveal_with_fuel(Seq::filter, 1);
            assert(es.subrange(0, j + 1).drop_last() =~= es.subrange(0, j as int));
            assert(es.subrange(0, j + 1).last() == entries@[j as int]@);
        }
        let keep = match jar_artifact_exec(os, entries[j].as_slice()) {
            Some(b) => !contains_chars(&arts, b.as_slice()),
            None => true,
        };
        assert(keep == pred(entries@[j as int]@));
        if keep {
            let e = copy_range(entries[j].as_slice(), 0, entries[j].len());
            proof {
                assert(entries@[j as int]@.subrange(0, entries@[j as int]@.len() as int) =~= entries@[j as int]@);
                lemma_views_push(kept@, e);
            }
            kept.push(e);
        }
        j += 1;
    }
    assert(es.subrange(0, entries@.len() as int) =~= es);
    let sep_v = vec![sep];
    assert(sep_v@ =~= seq![sep]);
    let joined = join_exec(&kept, sep_v.as_slice());
    assert(views(kept@) == es.filter(pred));
    assert(joined@ == join(views(kept@), seq![sep]));
    assert(es.filter(pred) == split_char(classpath@, spec_classpath_separator(os)).filter(
        |e: Seq<char>| classpath_entry_kept(os, split_char(modulepath@, spec_classpath_separator(os)), e),
    ));
    from_chars(joined.as_slice())
}


/// Player username placeholder (`${auth_player_name}`).
pub const KEY_AUTH_PLAYER_NAME: &'static str = "auth_player_name";
/// Player UUID placeholder (`${auth_uuid}`).
pub const KEY_AUTH_UUID: &'static str = "auth_uuid";
/// Access token placeholder (`${auth_access_token}`).
pub const KEY_AUTH_ACCESS_TOKEN: &'static str = "auth_access_token";
/// Xbox Live user ID placeholder (`${auth_xuid}`).
pub const KEY_AUTH_XUID: &'static str = "auth_xuid";
/// OAuth client ID placeholder (`${clientid}`).
pub const KEY_CLIENT_ID: &'static str = "clientid";
/// User type placeholder (`${user_type}`).
pub const KEY_USER_TYPE: &'static str = "user_type";
/// User properties placeholder (`${user_properties}`).
pub const KEY_USER_PROPERTIES: &'static str = "user_properties";
/// Version name placeholder (`${version_name}`).
pub const KEY_VERSION_NAME: &'static str = "version_name";
/// Version type placeholder (`${version_type}`).
pub const KEY_VERSION_TYPE: &'static str = "version_type";
/// Game run directory placeholder (`${game_directory}`).
pub const KEY_GAME_DIRECTORY: &'static str = "game_directory";
/// Assets root placeholder (`${assets_root}`).
pub const KEY_ASSETS_ROOT: &'static str = "assets_root";
/// Native libraries directory placeholder (`${natives_directory}`).
pub const KEY_NATIVES_DIRECTORY: &'static str = "natives_directory";
/// Libraries directory placeholder (`${library_directory}`).
pub const KEY_LIBRARY_DIRECTORY: &'static str = "library_directory";
/// Assets index placeholder (`${assets_index_name}`).
pub const KEY_ASSETS_INDEX_NAME: &'static str = "assets_index_name";
/// Launcher name placeholder (`${launcher_name}`).
pub const KEY_LAUNCHER_NAME: &'static str = "launcher_name";
/// Launcher version placeholder (`${launcher_version}`).
pub const KEY_LAUNCHER_VERSION: &'static str = "launcher_version";
/// Classpath placeholder (`${classpath}`).
pub const KEY_CLASSPATH: &'static str = "classpath";
/// Classpath separator placeholder (`${classpath_separator}`).
pub const KEY_CLASSPATH_SEPARATOR: &'static str = "classpath_separator";

/// The JVM arguments used for versions whose manifest has none.
pub open spec fn default_jvm_args(vars: Map<Seq<char>, Seq<char>>) -> Seq<Seq<char>> {
    seq![
        "-Xms1024M"@,
        "-Xmx2048M"@,
        "-Djava.library.path="@ + value_or_empty(vars, KEY_NATIVES_DIRECTORY@),
        "-Dminecraft.launcher.brand="@ + value_or_empty(vars, KEY_LAUNCHER_NAME@),
        "-Dminecraft.launcher.version="@ + value_or_empty(vars, KEY_LAUNCHER_VERSION@),
        "-cp"@,
        value_or_empty(vars, KEY_CLASSPATH@),
    ]
}

/// `prefix` followed by `value`, as a `String`.
fn concat_str(prefix: &str, value: &str) -> (r: String)
    ensures
        r@ == prefix@ + value@,
{
    let mut v = to_chars(prefix);
    let w = to_chars(value);
    extend_chars(&mut v, w.as_slice());
    from_chars(v.as_slice())
}

/// Default JVM arguments for legacy versions that do not ship any.
pub fn build_default_jvm_args(variables: &VariableMap) -> (r: Vec<String>)
    ensures
        str_views(r@) == default_jvm_args(variables@),
{
    let natives_dir = variables.get_or_default(KEY_NATIVES_DIRECTORY);
    let launcher_name = variables.get_or_default(KEY_LAUNCHER_NAME);
    let launcher_version = variables.get_or_default(KEY_LAUNCHER_VERSION);
    let classpath = variables.get_or_default(KEY_CLASSPATH);
    let mut r: Vec<String> = Vec::new();
    r.push(String::from_str("-Xms1024M"));
    r.push(String::from_str("-Xmx2048M"));
    r.push(concat_str("-Djava.library.path=", natives_dir.as_str()));
    r.push(concat_str("-Dminecraft.launcher.brand=", launcher_name.as_str()));
    r.push(concat_str("-Dminecraft.launcher.version=", launcher_version.as_str()));
    r.push(String::from_str("-cp"));
    r.push(classpath);
    assert(str_views(r@) =~= default_jvm_args(variables@));
    r
}


/// The directory of libraries of an instance.
pub open spec fn libraries_dir(os: OperatingSystem, inst: InstanceInfo) -> Seq<char> {
    join_path(os, inst.game_dir@, "libraries"@)
}

/// The classpath entries: each library that has a path, under the
/// libraries directory, then the client JAR `<game_dir>/<name>.jar`.
pub open spec fn classpath_entries(os: OperatingSystem, inst: InstanceInfo, libs: Seq<Library>) -> Seq<Seq<char>> {
    let lib_dir = libraries_dir(os, inst);
    libs.filter_map(
        |l: Library|
            match l.path {
                Some(p) => Some(join_path(os, lib_dir, p@)),
                None => None,
            },
    ).push(join_path(os, inst.game_dir@, inst.name@ + ".jar"@))
}

/// The runtime classpath.
pub open spec fn classpath_of(os: OperatingSystem, inst: InstanceInfo, libs: Seq<Library>) -> Seq<char> {
    join(classpath_entries(os, inst, libs), seq![spec_classpath_separator(os)])
}

/// Builds the runtime classpath from the resolved library list.
pub fn build_classpath(os: OperatingSystem, instance: &InstanceInfo, libraries: &[Library]) -> (r: String)
    ensures
        r@ == classpath_of(os, *instance, libraries@),
{
    let game_dir = to_chars(instance.game_dir.as_str());
    let libs_name = to_chars("libraries");
    let lib_dir = join_path_exec(os, game_dir.as_slice(), libs_name.as_slice());
    let ghost f = |l: Library|
        match l.path {
            Some(p) => Some(join_path(os, lib_dir@, p@)),
            None => None,
        };
    let mut entries: Vec<Vec<char>> = Vec::new();
    let mut i: usize = 0;
    while i < libraries.len()
        invariant
            i <= libraries@.len(),
            lib_dir@ == libraries_dir(os, *instance),
            f == (|l: Library|
                match l.path {
                    Some(p) => Some(join_path(os, lib_dir@, p@)),
                    None => None,
                }),
            views(entries@) == libraries@.subrange(0, i as int).filter_map(f),
        decreases libraries.len() - i,
    {
        proof {
            assert(libraries@.subrange(0, i + 1).drop_last() =~= libraries@.subrange(0, i as int));
            assert(libraries@.subrange(0, i + 1).last() == libraries@[i as int]);
        }
        match &libraries[i].path {
            Some(p) => {
                let pc = to_chars(p.as_str());
                let e = join_path_exec(os, lib_dir.as_slice(), pc.as_slice());
                proof {
                    lemma_views_push(entries@, e);
                    assert(views(entries@).push(e@) =~= views(entries@) + seq![e@]);
                }
                entries.push(e);
            },
            None => {},
        }
        i += 1;
    }
    assert(libraries@.subrange(0, libraries@.len() as int) =~= libraries@);
    let mut jar = to_chars(instance.name.as_str());
    let ext = to_chars(".jar");
    extend_chars(&mut jar, ext.as_slice());
    let client = join_path_exec(os, game_dir.as_slice(), jar.as_slice());
    proof {
        lemma_views_push(entries@, client);
    }
    entries.push(client);
    let sep_v = vec![classpath_separator(os)];
    assert(sep_v@ =~= seq![spec_classpath_separator(os)]);
    let joined = join_exec(&entries, sep_v.as_slice());
    from_chars(joined.as_slice())
}


/// The placeholder values of a launch, before the caller's overrides.
pub open spec fn launch_variables(
    os: OperatingSystem,
    inst: InstanceInfo,
    version: Version,
    username: Seq<char>,
    uuid: Seq<char>,
    launcher_name: Seq<char>,
    launcher_version: Seq<char>,
) -> Map<Seq<char>, Seq<char>> {
    let game_dir = inst.game_dir@;
    Map::<Seq<char>, Seq<char>>::empty()
        .insert(KEY_AUTH_PLAYER_NAME@, username)
        .insert(KEY_AUTH_UUID@, uuid)
        .insert(KEY_AUTH_ACCESS_TOKEN@, "0"@)
        .insert(KEY_AUTH_XUID@, "0"@)
        .insert(KEY_CLIENT_ID@, "{client-id}"@)
        .insert(KEY_USER_TYPE@, "legacy"@)
        .insert(KEY_USER_PROPERTIES@, "{}"@)
        .insert(KEY_VERSION_NAME@, inst.name@)
        .insert(KEY_VERSION_TYPE@, "release"@)
        .insert(KEY_GAME_DIRECTORY@, join_path(os, game_dir, "runtime"@))
        .insert(KEY_ASSETS_ROOT@, join_path(os, game_dir, "assets"@))
        .insert(KEY_NATIVES_DIRECTORY@, join_path(os, game_dir, "natives"@))
        .insert(KEY_LIBRARY_DIRECTORY@, join_path(os, game_dir, "libraries"@))
        .insert(
            KEY_ASSETS_INDEX_NAME@,
            match version.assets_index_id {
                Some(id) => id@,
                None => inst.minecraft_version@,
            },
        )
        .insert(KEY_LAUNCHER_NAME@, launcher_name)
        .insert(KEY_LAUNCHER_VERSION@, launcher_version)
        .insert(KEY_CLASSPATH@, classpath_of(os, inst, version.libraries@))
        .insert(KEY_CLASSPATH_SEPARATOR@, seq![spec_classpath_separator(os)])
}

/// `base` joined with `child`, as a `String`.
fn join_str(os: OperatingSystem, base: &str, child: &str) -> (r: String)
    ensures
        r@ == join_path(os, base@, child@),
{
    let b = to_chars(base);
    let c = to_chars(child);
    let j = join_path_exec(os, b.as_slice(), c.as_slice());
    from_chars(j.as_slice())
}

/// Builds the placeholder map of a launch.
pub fn create_variable_map(
    os: OperatingSystem,
    instance: &InstanceInfo,
    version: &Version,
    username: &str,
    uuid: &str,
    launcher_name: &str,
    launcher_version: &str,
) -> (r: VariableMap)
    ensures
        r@ == launch_variables(
            os,
            *instance,
            *version,
            username@,
            uuid@,
            launcher_name@,
            launcher_version@,
        ),
{
    let mut map = VariableMap::new();
    let game_dir = instance.game_dir.as_str();
    map.insert(String::from_str(KEY_AUTH_PLAYER_NAME), String::from_str(username));
    map.insert(String::from_str(KEY_AUTH_UUID), String::from_str(uuid));
    map.insert(String::from_str(KEY_AUTH_ACCESS_TOKEN), String::from_str("0"));
    map.insert(String::from_str(KEY_AUTH_XUID), String::from_str("0"));
    map.insert(String::from_str(KEY_CLIENT_ID), String::from_str("{client-id}"));
    map.insert(String::from_str(KEY_USER_TYPE), String::from_str("legacy"));
    map.insert(String::from_str(KEY_USER_PROPERTIES), String::from_str("{}"));
    map.insert(String::from_str(KEY_VERSION_NAME), instance.name.clone());
    map.insert(String::from_str(KEY_VERSION_TYPE), String::from_str("release"));
    map.insert(String::from_str(KEY_GAME_DIRECTORY), join_str(os, game_dir, "runtime"));
    map.insert(String::from_str(KEY_ASSETS_ROOT), join_str(os, game_dir, "assets"));
    map.insert(String::from_str(KEY_NATIVES_DIRECTORY), join_str(os, game_dir, "natives"));
    map.insert(String::from_str(KEY_LIBRARY_DIRECTORY), join_str(os, game_dir, "libraries"));
    let assets_index_name = match &version.assets_index_id {
        Some(id) => id.clone(),
        None => instance.minecraft_version.clone(),
    };
    map.insert(String::from_str(KEY_ASSETS_INDEX_NAME), assets_index_name);
    map.insert(String::from_str(KEY_LAUNCHER_NAME), String::from_str(launcher_name));
    map.insert(String::from_str(KEY_LAUNCHER_VERSION), String::from_str(launcher_version));
    map.insert(
        String::from_str(KEY_CLASSPATH),
        build_classpath(os, instance, version.libraries.as_slice()),
    );
    map.insert(String::from_str(KEY_CLASSPATH_SEPARATOR), get_path_separator(os));
    map
}


/// The variables after the caller's overrides, applied in order.
pub open spec fn override_variables(
    vars: Map<Seq<char>, Seq<char>>,
    overrides: Seq<(Seq<char>, Seq<char>)>,
) -> Map<Seq<char>, Seq<char>>
    decreases overrides.len(),
{
    if overrides.len() == 0 {
        vars
    } else {
        override_variables(vars, overrides.drop_last()).insert(
            overrides.last().0,
            overrides.last().1,
        )
    }
}

/// `args` with `prefix + value` put first unless some argument already
/// starts with `prefix`.
pub open spec fn ensure_prefixed(args: Seq<Seq<char>>, prefix: Seq<char>, value: Seq<char>) -> Seq<Seq<char>> {
    if exists|i: int| 0 <= i < args.len() && starts_with(#[trigger] args[i], prefix) {
        args
    } else {
        args.insert(0, prefix + value)
    }
}

/// `args` with `flag` put first unless it is already there.
pub open spec fn ensure_flag(args: Seq<Seq<char>>, flag: Seq<char>) -> Seq<Seq<char>> {
    if args.contains(flag) {
        args
    } else {
        args.insert(0, flag)
    }
}

/// The module path: the argument right after the first `-p`.
pub open spec fn module_path_of(args: Seq<Seq<char>>) -> Option<Seq<char>> {
    match first_match(args, |a: Seq<char>| a == "-p"@) {
        Some(i) => if i + 1 < args.len() {
            Some(args[i + 1])
        } else {
            None
        },
        None => None,
    }
}

/// `args` with the classpath in place: an existing `-cp` value is filtered
/// against the module path (when there is one); without `-cp`, `-cp` and
/// the classpath (filtered likewise) are appended.
pub open spec fn place_classpath(
    os: OperatingSystem,
    args: Seq<Seq<char>>,
    classpath: Seq<char>,
    modules: Option<Seq<char>>,
) -> Seq<Seq<char>> {
    match first_match(args, |a: Seq<char>| a == "-cp"@) {
        Some(c) => match modules {
            Some(m) => if c + 1 < args.len() {
                args.update(c + 1, filtered_classpath(os, args[c + 1], m))
            } else {
                args
            },
            None => args,
        },
        None => args.push("-cp"@).push(
            match modules {
                Some(m) => filtered_classpath(os, classpath, m),
                None => classpath,
            },
        ),
    }
}

/// The JVM arguments with the options the game always needs: on macOS
/// `-XstartOnFirstThread`, the natives path, the launcher brand and version,
/// and the classpath last.
pub open spec fn complete_jvm_args(
    os: OperatingSystem,
    vars: Map<Seq<char>, Seq<char>>,
    jvm: Seq<Seq<char>>,
) -> Seq<Seq<char>> {
    let a1 = if os == OperatingSystem::OSX {
        ensure_flag(jvm, "-XstartOnFirstThread"@)
    } else {
        jvm
    };
    let a2 = ensure_prefixed(a1, "-Djava.library.path="@, value_or_empty(vars, KEY_NATIVES_DIRECTORY@));
    let a3 = ensure_prefixed(
        a2,
        "-Dminecraft.launcher.brand="@,
        value_or_empty(vars, KEY_LAUNCHER_NAME@),
    );
    let a4 = ensure_prefixed(
        a3,
        "-Dminecraft.launcher.version="@,
        value_or_empty(vars, KEY_LAUNCHER_VERSION@),
    );
    place_classpath(os, a4, value_or_empty(vars, KEY_CLASSPATH@), module_path_of(a4))
}

/// Puts `prefix + value` first unless an argument already starts with `prefix`.
fn ensure_prefixed_exec(args: &mut Vec<String>, prefix: &str, value: &str)
    ensures
        str_views(final(args)@) == ensure_prefixed(str_views(old(args)@), prefix@, value@),
{
    let p = to_chars(prefix);
    match position_starting_with(args, p.as_slice()) {
        Some(j) => {
            proof {
                let pred = |a: Seq<char>| starts_with(a, prefix@);
                assert(is_first_match(str_views(args@), pred, j as int));
            }
        },
        None => {
            proof {
                let pred = |a: Seq<char>| starts_with(a, prefix@);
                if exists|i: int| 0 <= i < args@.len() && starts_with(#[trigger] str_views(args@)[i], prefix@) {
                    let i = choose|i: int| 0 <= i < args@.len() && starts_with(#[trigger] str_views(args@)[i], prefix@);
                    lemma_first_match_exists(str_views(args@), pred, i);
                }
            }
            let ghost before = str_views(args@);
            let opt = concat_str(prefix, value);
            args.insert(0, opt);
            assert(str_views(args@) =~= before.insert(0, prefix@ + value@));
        },
    }
}

/// Puts `flag` first unless it is already among the arguments.
fn ensure_flag_exec(args: &mut Vec<String>, flag: &str)
    ensures
        str_views(final(args)@) == ensure_flag(str_views(old(args)@), flag@),
{
    let f = to_chars(flag);
    match position_equal(args, f.as_slice()) {
        Some(j) => {
            proof {
                let pred = |a: Seq<char>| a == flag@;
                assert(is_first_match(str_views(args@), pred, j as int));
                assert(str_views(args@).contains(flag@));
            }
        },
        None => {
            proof {
                let pred = |a: Seq<char>| a == flag@;
                if str_views(args@).contains(flag@) {
                    let i = choose|i: int| 0 <= i < str_views(args@).len() && str_views(args@)[i] == flag@;
                    lemma_first_match_exists(str_views(args@), pred, i);
                }
            }
            let ghost before = str_views(args@);
            args.insert(0, String::from_str(flag));
            assert(str_views(args@) =~= before.insert(0, flag@));
        },
    }
}

/// The argument right after the first `-p`.
fn module_path_of_exec(args: &Vec<String>) -> (r: Option<String>)
    ensures
        match r {
            Some(m) => module_path_of(str_views(args@)) == Some(m@),
            None => module_path_of(str_views(args@)) is None,
        },
{
    let p = to_chars("-p");
    match position_equal(args, p.as_slice()) {
        Some(i) => {
            if i < args.len() - 1 {
                Some(args[i + 1].clone())
            } else {
                None
            }
        },
        None => None,
    }
}

/// Puts the classpath in place (see `place_classpath`).
fn place_classpath_exec(os: OperatingSystem, args: &mut Vec<String>, classpath: &str, modules: Option<String>)
    ensures
        str_views(final(args)@) == place_classpath(
            os,
            str_views(old(args)@),
            classpath@,
            match modules {
                Some(m) => Some(m@),
                None => None,
            },
        ),
{
    let cp = to_chars("-cp");
    let ghost before = str_views(args@);
    match position_equal(args, cp.as_slice()) {
        Some(c) => {
            match modules {
                Some(m) => {
                    if c < args.len() - 1 {
                        let filtered = filter_classpath_from_modulepath(os, args[c + 1].as_str(), m.as_str());
                        args.set(c + 1, filtered);
                        assert(str_views(args@) =~= before.update(c + 1, filtered@));
                    }
                },
                None => {},
            }
        },
        None => {
            args.push(String::from_str("-cp"));
            let value = match modules {
                Some(m) => filter_classpath_from_modulepath(os, classpath, m.as_str()),
                None => String::from_str(classpath),
            };
            args.push(value);
            assert(str_views(args@) =~= before.push("-cp"@).push(value@));
        },
    }
}

/// Completes the JVM arguments (see `complete_jvm_args`).
pub fn complete_jvm_args_exec(os: OperatingSystem, variables: &VariableMap, jvm_args: &mut Vec<String>)
    ensures
        str_views(final(jvm_args)@) == complete_jvm_args(os, variables@, str_views(old(jvm_args)@)),
{
    if os == OperatingSystem::OSX {
        ensure_flag_exec(jvm_args, "-XstartOnFirstThread");
    }
    let natives_dir = variables.get_or_default(KEY_NATIVES_DIRECTORY);
    ensure_prefixed_exec(jvm_args, "-Djava.library.path=", natives_dir.as_str());
    let launcher_name = variables.get_or_default(KEY_LAUNCHER_NAME);
    ensure_prefixed_exec(jvm_args, "-Dminecraft.launcher.brand=", launcher_name.as_str());
    let launcher_version = variables.get_or_default(KEY_LAUNCHER_VERSION);
    ensure_prefixed_exec(jvm_args, "-Dminecraft.launcher.version=", launcher_version.as_str());
    let modules = module_path_of_exec(jvm_args);
    let classpath = variables.get_or_default(KEY_CLASSPATH);
    place_classpath_exec(os, jvm_args, classpath.as_str(), modules);
}


/// Every argument of `args` can be substituted.
pub open spec fn all_substitutable(args: Seq<String>) -> bool {
    forall|i: int| 0 <= i < args.len() ==> no_nested_placeholder(#[trigger] args[i]@)
}

/// The full command line of a launch: JVM arguments, main class, game
/// arguments, then the raw arguments.
pub open spec fn launch_arguments(
    os: OperatingSystem,
    inst: InstanceInfo,
    version: Version,
    username: Seq<char>,
    uuid: Seq<char>,
    launcher_name: Seq<char>,
    launcher_version: Seq<char>,
    arg_overrides: Seq<(Seq<char>, Seq<char>)>,
    arg_removals: Seq<Seq<char>>,
    jvm_overrides: Seq<(Seq<char>, Seq<char>)>,
    jvm_removals: Seq<Seq<char>>,
    raw_args: Seq<Seq<char>>,
) -> Seq<Seq<char>> {
    let vars = override_variables(
        launch_variables(os, inst, version, username, uuid, launcher_name, launcher_version),
        arg_overrides,
    );
    let game = str_views(version.arguments.game@).map_values(|a: Seq<char>| substitute(a, vars));
    let jvm0 = match version.arguments.jvm {
        Some(j) => str_views(j@).map_values(|a: Seq<char>| substitute(a, vars)),
        None => default_jvm_args(vars),
    };
    let jvm = apply_jvm_overrides_spec(complete_jvm_args(os, vars, jvm0), jvm_overrides).filter(
        |a: Seq<char>| jvm_arg_kept(jvm_removals, a),
    );
    jvm.push(version.main_class@) + game.filter(|a: Seq<char>| game_arg_kept(arg_removals, a))
        + raw_args
}

/// Builds the launch command line (JVM arguments, main class, game
/// arguments, raw arguments) from a resolved version and the caller's
/// overrides and removals.
pub fn build_arguments(
    os: OperatingSystem,
    instance: &InstanceInfo,
    version: &Version,
    username: &str,
    uuid: &str,
    launcher_name: &str,
    launcher_version: &str,
    arg_overrides: &[(String, String)],
    arg_removals: &[String],
    jvm_overrides: &[(String, String)],
    jvm_removals: &[String],
    raw_args: &[String],
) -> (r: Vec<String>)
    requires
        all_substitutable(version.arguments.game@),
        version.arguments.jvm matches Some(j) ==> all_substitutable(j@),
    ensures
        str_views(r@) == launch_arguments(
            os,
            *instance,
            *version,
            username@,
            uuid@,
            launcher_name@,
            launcher_version@,
            pair_views(arg_overrides@),
            str_views(arg_removals@),
            pair_views(jvm_overrides@),
            str_views(jvm_removals@),
            str_views(raw_args@),
        ),
{
    let mut variables = create_variable_map(
        os,
        instance,
        version,
        username,
        uuid,
        launcher_name,
        launcher_version,
    );
    let ghost vars0 = variables@;
    let mut i: usize = 0;
    while i < arg_overrides.len()
        invariant
            i <= arg_overrides@.len(),
            variables@ == override_variables(vars0, pair_views(arg_overrides@).subrange(0, i as int)),
        decreases arg_overrides.len() - i,
    {
        proof {
            let ov = pair_views(arg_overrides@).subrange(0, i + 1);
            assert(ov.drop_last() =~= pair_views(arg_overrides@).subrange(0, i as int));
        }
        variables.insert(arg_overrides[i].0.clone(), arg_overrides[i].1.clone());
        i += 1;
    }
    assert(pair_views(arg_overrides@).subrange(0, arg_overrides@.len() as int) =~= pair_views(
        arg_overrides@,
    ));
    let game_args = replace_variables_in_vec(version.arguments.game.as_slice(), &variables);
    let mut jvm_args = match &version.arguments.jvm {
        Some(jvm) => replace_variables_in_vec(jvm.as_slice(), &variables),
        None => build_default_jvm_args(&variables),
    };
    complete_jvm_args_exec(os, &variables, &mut jvm_args);
    apply_jvm_overrides(&mut jvm_args, jvm_overrides);
    apply_jvm_removals(&mut jvm_args, jvm_removals);
    let game_args = apply_arg_removals(game_args, arg_removals);
    let mut full_args = jvm_args;
    let ghost jvm_part = str_views(full_args@);
    full_args.push(version.main_class.clone());
    proof {
        assert(str_views(full_args@) =~= jvm_part.push(version.main_class@));
    }
    let ghost head = str_views(full_args@);
    let mut k: usize = 0;
    while k < game_args.len()
        invariant
            k <= game_args@.len(),
            str_views(full_args@) == head + str_views(game_args@).subrange(0, k as int),
        decreases game_args.len() - k,
    {
        let ghost f0 = full_args@;
        full_args.push(game_args[k].clone());
        proof {
            lemma_str_views_push(f0, game_args@[k as int]);
            assert(str_views(game_args@).subrange(0, k + 1) =~= str_views(game_args@).subrange(0, k as int).push(game_args@[k as int]@));
        }
        k += 1;
    }
    assert(str_views(game_args@).subrange(0, game_args@.len() as int) =~= str_views(game_args@));
    let ghost mid = str_views(full_args@);
    let mut k: usize = 0;
    while k < raw_args.len()
        invariant
            k <= raw_args@.len(),
            str_views(full_args@) == mid + str_views(raw_args@).subrange(0, k as int),
        decreases raw_args.len() - k,
    {
        let ghost f0 = full_args@;
        full_args.push(raw_args[k].clone());
        proof {
            lemma_str_views_push(f0, raw_args@[k as int]);
            assert(str_views(raw_args@).subrange(0, k + 1) =~= str_views(raw_args@).subrange(0, k as int).push(raw_args@[k as int]@));
        }
        k += 1;
    }
    assert(str_views(raw_args@).subrange(0, raw_args@.len() as int) =~= str_views(raw_args@));
    full_args
}


/// Text without `${` is left unchanged by substitution.
pub proof fn lemma_substitute_without_placeholder(s: Seq<char>, vars: Map<Seq<char>, Seq<char>>)
    requires
        !contains(s, "${"@),
    ensures
        substitute(s, vars) == s,
{
    lemma_first_occurrence_none(s, "${"@, 0);
}

/// A lone placeholder `${key}`, whose key holds no `}`, becomes the
/// variable's value when it is set and stays as it is otherwise.
pub proof fn lemma_substitute_placeholder(key: Seq<char>, vars: Map<Seq<char>, Seq<char>>)
    requires
        !contains(key, "}"@),
    ensures
        substitute("${"@ + key + "}"@, vars) == (if vars.contains_key(key) {
            vars[key]
        } else {
            "${"@ + key + "}"@
        }),
{
    reveal_strlit("${");
    reveal_strlit("}");
    let s = "${"@ + key + "}"@;
    let e: int = key.len() as int + 2;
    assert(s.subrange(0, 2) =~= "${"@);
    assert(is_first_occurrence(s, "${"@, 0, 0));
    lemma_first_occurrence_unique(s, "${"@, 0, 0);
    assert(s.subrange(e, e + 1) =~= "}"@);
    assert forall|j: int| 0 <= j < e implies !occurs_at(s, "}"@, j) by {
        if occurs_at(s, "}"@, j) {
            assert(s.subrange(j, j + 1)[0] == s[j]);
            if j >= 2 {
                assert(key.subrange(j - 2, j - 1) =~= "}"@);
                assert(occurs_at(key, "}"@, j - 2));
            }
        }
    }
    assert(is_first_occurrence(s, "}"@, 0, e));
    lemma_first_occurrence_unique(s, "}"@, 0, e);
    assert(s.subrange(2, e) =~= key);
    assert(s.subrange(0, e + 1) =~= s);
    assert(s.subrange(0, 0) =~= Seq::<char>::empty());
    let rest = s.subrange(e + 1, s.len() as int);
    assert(rest =~= Seq::<char>::empty());
    lemma_first_occurrence_none(rest, "${"@, 0);
    assert(substitute(rest, vars) == rest);
    let v = placeholder_value(vars, key, s);
    assert(Seq::<char>::empty() + v + Seq::<char>::empty() =~= v);
}

/// `args` ends with `-cp` and the classpath, and `-cp` occurs nowhere else.
pub open spec fn classpath_last(args: Seq<Seq<char>>, classpath: Seq<char>) -> bool {
    &&& args.len() >= 2
    &&& args[args.len() - 2] == "-cp"@
    &&& args[args.len() - 1] == classpath
    &&& !args.subrange(0, args.len() - 2).contains("-cp"@)
}

/// No override can touch `-cp`: the dash and the key's part before `=` is
/// not a prefix of `-cp`.
pub open spec fn overrides_spare_classpath_flag(overrides: Seq<(Seq<char>, Seq<char>)>) -> bool {
    forall|k: int| 0 <= k < overrides.len() ==> !starts_with("-cp"@, "-"@ + before_eq(#[trigger] overrides[k].0))
}

proof fn lemma_option_starts_with_prefix(key: Seq<char>, value: Seq<char>)
    ensures
        starts_with(jvm_option(key, value), "-"@ + before_eq(key)),
{
    reveal_strlit("-");
    let b = before_eq(key);
    let o = jvm_option(key, value);
    assert(starts_with(key, b)) by {
        match first_occurrence(key, "="@, 0) {
            Some(i) => {
                if 0 <= i <= key.len() {
                    assert(key.subrange(0, b.len() as int) =~= b);
                } else {
                    assert(key.subrange(0, key.len() as int) =~= key);
                }
            },
            None => {
                assert(key.subrange(0, key.len() as int) =~= key);
            },
        }
    }
    assert(o.subrange(0, b.len() + 1int) =~= "-"@ + b) by {
        assert(key.subrange(0, b.len() as int) =~= b);
        assert forall|i: int| 0 <= i < b.len() + 1 implies o.subrange(0, b.len() + 1int)[i] == ("-"@ + b)[i] by {
            if i > 0 {
                assert(o[i] == key[i - 1]);
            }
        }
    }
}

proof fn lemma_override_keeps_classpath_last(
    args: Seq<Seq<char>>,
    classpath: Seq<char>,
    key: Seq<char>,
    value: Seq<char>,
)
    requires
        classpath_last(args, classpath),
        !starts_with(classpath, "-"@),
        !starts_with("-cp"@, "-"@ + before_eq(key)),
    ensures
        classpath_last(apply_jvm_override(args, key, value), classpath),
{
    reveal_strlit("-");
    reveal_strlit("-cp");
    let option = jvm_option(key, value);
    let prefix = "-"@ + before_eq(key);
    let n = args.len();
    lemma_option_starts_with_prefix(key, value);
    assert(option != "-cp"@);
    let sw = |a: Seq<char>| starts_with(a, prefix);
    let is_cp = |a: Seq<char>| a == "-cp"@;
    let r = apply_jvm_override(args, key, value);
    assert(!starts_with(classpath, prefix)) by {
        if starts_with(classpath, prefix) {
            assert(classpath.subrange(0, 1) =~= prefix.subrange(0, 1));
            assert(classpath.subrange(0, 1) =~= "-"@);
        }
    }
    match first_match(args, sw) {
        Some(j) => {
            let jj = choose|i: int| is_first_match(args, sw, i);
            assert(is_first_match(args, sw, jj));
            assert(jj < n - 2) by {
                if jj == n - 2 {
                    assert(args[n - 2] == "-cp"@);
                } else if jj == n - 1 {
                    assert(args[n - 1] == classpath);
                }
            }
            assert(r == args.update(jj, option));
            assert(r.subrange(0, n - 2) =~= args.subrange(0, n - 2).update(jj, option));
            assert(!r.subrange(0, n - 2).contains("-cp"@)) by {
                let t = r.subrange(0, n - 2);
                if t.contains("-cp"@) {
                    let m = choose|m: int| 0 <= m < t.len() && #[trigger] t[m] == "-cp"@;
                    if m != jj {
                        assert(args.subrange(0, n - 2)[m] == "-cp"@);
                    }
                }
            }
        },
        None => {
            assert(is_first_match(args, is_cp, n - 2)) by {
                assert forall|i: int| 0 <= i < n - 2 implies !is_cp(args[i]) by {
                    if is_cp(args[i]) {
                        assert(args.subrange(0, n - 2)[i] == "-cp"@);
                    }
                }
            }
            lemma_first_match_unique(args, is_cp, n - 2);
            assert(r == args.insert(n - 2, option));
            assert(r.subrange(0, n - 1) =~= args.subrange(0, n - 2).push(option));
            assert(!r.subrange(0, n - 1).contains("-cp"@)) by {
                let t = r.subrange(0, n - 1);
                if t.contains("-cp"@) {
                    let m = choose|m: int| 0 <= m < t.len() && #[trigger] t[m] == "-cp"@;
                    if m < n - 2 {
                        assert(args.subrange(0, n - 2)[m] == "-cp"@);
                    }
                }
            }
        },
    }
}

/// JVM overrides keep the classpath last: when the arguments end with
/// `-cp` and the classpath (which does not look like an option) and no
/// override can touch `-cp`, they still do after the overrides.
pub proof fn lemma_overrides_keep_classpath_last(
    args: Seq<Seq<char>>,
    classpath: Seq<char>,
    overrides: Seq<(Seq<char>, Seq<char>)>,
)
    requires
        classpath_last(args, classpath),
        !starts_with(classpath, "-"@),
        overrides_spare_classpath_flag(overrides),
    ensures
        classpath_last(apply_jvm_overrides_spec(args, overrides), classpath),
    decreases overrides.len(),
{
    if overrides.len() > 0 {
        let prev = overrides.drop_last();
        assert(overrides_spare_classpath_flag(prev)) by {
            assert forall|k: int| 0 <= k < prev.len() implies !starts_with("-cp"@, "-"@ + before_eq(#[trigger] prev[k].0)) by {
                assert(prev[k] == overrides[k]);
            }
        }
        lemma_overrides_keep_classpath_last(args, classpath, prev);
        let last = overrides[overrides.len() - 1];
        lemma_override_keeps_classpath_last(
            apply_jvm_overrides_spec(args, prev),
            classpath,
            last.0,
            last.1,
        );
    }
}

/// After an override, the formatted option is among the arguments.
pub proof fn lemma_override_present(args: Seq<Seq<char>>, key: Seq<char>, value: Seq<char>)
    ensures
        apply_jvm_override(args, key, value).contains(jvm_option(key, value)),
{
    let option = jvm_option(key, value);
    let prefix = "-"@ + before_eq(key);
    let sw = |a: Seq<char>| starts_with(a, prefix);
    let is_cp = |a: Seq<char>| a == "-cp"@;
    let r = apply_jvm_override(args, key, value);
    match first_match(args, sw) {
        Some(j) => {
            let jj = choose|i: int| is_first_match(args, sw, i);
            assert(is_first_match(args, sw, jj));
            assert(r[jj] == option);
        },
        None => match first_match(args, is_cp) {
            Some(c) => {
                let cc = choose|i: int| is_first_match(args, is_cp, i);
                assert(is_first_match(args, is_cp, cc));
                assert(r[cc] == option);
            },
            None => {
                assert(r[r.len() - 1] == option);
            },
        },
    }
}

/// No JVM option left after the removals has a removed key.
pub proof fn lemma_removed_jvm_options_absent(args: Seq<Seq<char>>, removals: Seq<Seq<char>>)
    ensures
        forall|k: int|
            0 <= k < kept_jvm_args(removals, args).len() ==> jvm_arg_kept(
                removals,
                #[trigger] kept_jvm_args(removals, args)[k],
            ),
{
    let pred = |a: Seq<char>| jvm_arg_kept(removals, a);
    assert forall|k: int| 0 <= k < args.filter(pred).len() implies pred(#[trigger] args.filter(pred)[k]) by {
        args.lemma_filter_pred(pred, k);
    }
}

/// The raw arguments come last in the command line, as given.
pub proof fn lemma_raw_args_last(
    os: OperatingSystem,
    inst: InstanceInfo,
    version: Version,
    username: Seq<char>,
    uuid: Seq<char>,
    launcher_name: Seq<char>,
    launcher_version: Seq<char>,
    arg_overrides: Seq<(Seq<char>, Seq<char>)>,
    arg_removals: Seq<Seq<char>>,
    jvm_overrides: Seq<(Seq<char>, Seq<char>)>,
    jvm_removals: Seq<Seq<char>>,
    raw_args: Seq<Seq<char>>,
)
    ensures
        ({
            let r = launch_arguments(
                os,
                inst,
                version,
                username,
                uuid,
                launcher_name,
                launcher_version,
                arg_overrides,
                arg_removals,
                jvm_overrides,
                jvm_removals,
                raw_args,
            );
            r.len() >= raw_args.len() + 1 && r.subrange(r.len() - raw_args.len(), r.len() as int) == raw_args
        }),
{
    let r = launch_arguments(
        os,
        inst,
        version,
        username,
        uuid,
        launcher_name,
        launcher_version,
        arg_overrides,
        arg_removals,
        jvm_overrides,
        jvm_removals,
        raw_args,
    );
    assert(r.subrange(r.len() - raw_args.len(), r.len() as int) =~= raw_args);
}

/// Setting the same JVM option twice has the effect of setting it once.
pub proof fn lemma_override_idempotent(args: Seq<Seq<char>>, key: Seq<char>, value: Seq<char>)
    ensures
        apply_jvm_override(apply_jvm_override(args, key, value), key, value) == apply_jvm_override(
            args,
            key,
            value,
        ),
{
    let option = jvm_option(key, value);
    let prefix = "-"@ + before_eq(key);
    let sw = |a: Seq<char>| starts_with(a, prefix);
    let is_cp = |a: Seq<char>| a == "-cp"@;
    let r = apply_jvm_override(args, key, value);
    lemma_option_starts_with_prefix(key, value);
    assert(sw(option));
    let pos: int = match first_match(args, sw) {
        Some(j) => {
            let jj = choose|i: int| is_first_match(args, sw, i);
            assert(is_first_match(args, sw, jj));
            assert(r == args.update(jj, option));
            jj
        },
        None => {
            assert forall|i: int| 0 <= i < args.len() implies !sw(args[i]) by {
                if sw(args[i]) {
                    lemma_first_match_exists(args, sw, i);
                }
            }
            match first_match(args, is_cp) {
                Some(c) => {
                    let cc = choose|i: int| is_first_match(args, is_cp, i);
                    assert(is_first_match(args, is_cp, cc));
                    assert(r == args.insert(cc, option));
                    cc
                },
                None => {
                    assert(r == args.push(option));
                    args.len() as int
                },
            }
        },
    };
    assert(0 <= pos < r.len() && r[pos] == option);
    assert forall|i: int| 0 <= i < pos implies !sw(#[trigger] r[i]) by {
        assert(r[i] == args[i]);
    }
    assert(is_first_match(r, sw, pos));
    lemma_first_match_unique(r, sw, pos);
    assert(r.update(pos, option) =~= r);
}

/// Removing the same options or arguments a second time changes nothing.
pub proof fn lemma_removals_idempotent(removals: Seq<Seq<char>>, args: Seq<Seq<char>>)
    ensures
        kept_jvm_args(removals, kept_jvm_args(removals, args)) == kept_jvm_args(removals, args),
        kept_game_args(removals, kept_game_args(removals, args)) == kept_game_args(removals, args),
{
    let pj = |a: Seq<char>| jvm_arg_kept(removals, a);
    let pg = |a: Seq<char>| game_arg_kept(removals, a);
    assert forall|k: int| 0 <= k < args.filter(pj).len() implies pj(#[trigger] args.filter(pj)[k]) by {
        args.lemma_filter_pred(pj, k);
    }
    assert forall|k: int| 0 <= k < args.filter(pg).len() implies pg(#[trigger] args.filter(pg)[k]) by {
        args.lemma_filter_pred(pg, k);
    }
    lemma_filter_keeps_all(args.filter(pj), pj);
    lemma_filter_keeps_all(args.filter(pg), pg);
}

/// No option follows a `-cp`: the argument after each `-cp` does not start
/// with `-`.
pub open spec fn options_not_after_cp(args: Seq<Seq<char>>) -> bool {
    forall|i: int| 0 <= i && i + 1 < args.len() && #[trigger] args[i] == "-cp"@ ==> !starts_with(args[i + 1], "-"@)
}

/// Some argument starts with `p`.
pub open spec fn has_prefixed(args: Seq<Seq<char>>, p: Seq<char>) -> bool {
    exists|i: int| 0 <= i < args.len() && starts_with(#[trigger] args[i], p)
}

proof fn lemma_starts_with_concat(p: Seq<char>, v: Seq<char>)
    ensures
        starts_with(p + v, p),
{
    assert((p + v).subrange(0, p.len() as int) =~= p);
}

proof fn lemma_starts_with_trans(s: Seq<char>, q: Seq<char>, d: Seq<char>)
    requires
        starts_with(s, q),
        starts_with(q, d),
    ensures
        starts_with(s, d),
{
    assert(s.subrange(0, d.len() as int) =~= q.subrange(0, d.len() as int)) by {
        assert forall|k: int| 0 <= k < d.len() implies s.subrange(0, d.len() as int)[k] == q.subrange(0, d.len() as int)[k] by {
            assert(s.subrange(0, q.len() as int)[k] == q[k]);
        }
    }
}

/// Putting an argument first keeps what is present and keeps options away
/// from the slot after `-cp`, as long as the new argument is not `-cp`.
proof fn lemma_insert_front(args: Seq<Seq<char>>, x: Seq<char>, q: Seq<char>, f: Seq<char>)
    requires
        x != "-cp"@,
    ensures
        has_prefixed(args, q) ==> has_prefixed(args.insert(0, x), q),
        args.contains(f) ==> args.insert(0, x).contains(f),
        options_not_after_cp(args) ==> options_not_after_cp(args.insert(0, x)),
{
    let r = args.insert(0, x);
    if has_prefixed(args, q) {
        let i = choose|i: int| 0 <= i < args.len() && starts_with(#[trigger] args[i], q);
        assert(r[i + 1] == args[i]);
    }
    if args.contains(f) {
        let i = choose|i: int| 0 <= i < args.len() && args[i] == f;
        assert(r[i + 1] == args[i]);
    }
    if options_not_after_cp(args) {
        assert forall|i: int| 0 <= i && i + 1 < r.len() && #[trigger] r[i] == "-cp"@ implies !starts_with(r[i + 1], "-"@) by {
            assert(i >= 1);
            assert(r[i] == args[i - 1]);
            assert(r[i + 1] == args[i]);
        }
    }
}

proof fn lemma_ensure_prefixed(args: Seq<Seq<char>>, p: Seq<char>, v: Seq<char>, q: Seq<char>, f: Seq<char>)
    requires
        starts_with(p, "-D"@),
    ensures
        has_prefixed(ensure_prefixed(args, p, v), p),
        has_prefixed(args, q) ==> has_prefixed(ensure_prefixed(args, p, v), q),
        args.contains(f) ==> ensure_prefixed(args, p, v).contains(f),
        options_not_after_cp(args) ==> options_not_after_cp(ensure_prefixed(args, p, v)),
{
    reveal_strlit("-cp");
    reveal_strlit("-D");
    if !(exists|i: int| 0 <= i < args.len() && starts_with(#[trigger] args[i], p)) {
        lemma_starts_with_concat(p, v);
        let x = p + v;
        assert(x != "-cp"@) by {
            if x == "-cp"@ {
                assert(x.subrange(0, 2) =~= p.subrange(0, 2));
                assert(p.subrange(0, 2) =~= "-D"@);
                assert(x[1] == 'c');
            }
        }
        lemma_insert_front(args, x, q, f);
        let r = args.insert(0, x);
        assert(starts_with(r[0], p));
    }
}

proof fn lemma_place_classpath_keeps(
    os: OperatingSystem,
    args: Seq<Seq<char>>,
    classpath: Seq<char>,
    modules: Option<Seq<char>>,
    q: Seq<char>,
    f: Seq<char>,
)
    requires
        options_not_after_cp(args),
        starts_with(q, "-"@),
        starts_with(f, "-"@),
    ensures
        has_prefixed(args, q) ==> has_prefixed(place_classpath(os, args, classpath, modules), q),
        args.contains(f) ==> place_classpath(os, args, classpath, modules).contains(f),
        place_classpath(os, args, classpath, modules).contains("-cp"@),
{
    let is_cp = |a: Seq<char>| a == "-cp"@;
    let r = place_classpath(os, args, classpath, modules);
    match first_match(args, is_cp) {
        Some(c0) => {
            let c = choose|i: int| is_first_match(args, is_cp, i);
            assert(is_first_match(args, is_cp, c));
            assert(args[c] == "-cp"@);
            assert(forall|j: int| 0 <= j < r.len() && j != c + 1 ==> r[j] == args[j]);
            assert(r.len() == args.len());
            assert(r[c] == "-cp"@);
            if has_prefixed(args, q) {
                let i = choose|i: int| 0 <= i < args.len() && starts_with(#[trigger] args[i], q);
                lemma_starts_with_trans(args[i], q, "-"@);
                if i == c + 1 {
                    assert(!starts_with(args[c + 1], "-"@));
                }
                assert(r[i] == args[i]);
            }
            if args.contains(f) {
                let i = choose|i: int| 0 <= i < args.len() && args[i] == f;
                if i == c + 1 {
                    assert(!starts_with(args[c + 1], "-"@));
                }
                assert(r[i] == args[i]);
            }
        },
        None => {
            assert(r[args.len() as int] == "-cp"@);
            if has_prefixed(args, q) {
                let i = choose|i: int| 0 <= i < args.len() && starts_with(#[trigger] args[i], q);
                assert(r[i] == args[i]);
            }
            if args.contains(f) {
                let i = choose|i: int| 0 <= i < args.len() && args[i] == f;
                assert(r[i] == args[i]);
            }
        },
    }
}

/// The JVM arguments of a launch always carry the natives path, the
/// launcher brand and version, a `-cp`, and on macOS
/// `-XstartOnFirstThread` (before overrides and removals), whenever no
/// option stands where a classpath belongs.
pub proof fn lemma_critical_jvm_args_present(os: OperatingSystem, vars: Map<Seq<char>, Seq<char>>, jvm: Seq<Seq<char>>)
    requires
        options_not_after_cp(jvm),
    ensures
        has_prefixed(complete_jvm_args(os, vars, jvm), "-Djava.library.path="@),
        has_prefixed(complete_jvm_args(os, vars, jvm), "-Dminecraft.launcher.brand="@),
        has_prefixed(complete_jvm_args(os, vars, jvm), "-Dminecraft.launcher.version="@),
        complete_jvm_args(os, vars, jvm).contains("-cp"@),
        os == OperatingSystem::OSX ==> complete_jvm_args(os, vars, jvm).contains("-XstartOnFirstThread"@),
{
    reveal_strlit("-Djava.library.path=");
    reveal_strlit("-Dminecraft.launcher.brand=");
    reveal_strlit("-Dminecraft.launcher.version=");
    reveal_strlit("-XstartOnFirstThread");
    reveal_strlit("-cp");
    reveal_strlit("-D");
    reveal_strlit("-");
    let lib = "-Djava.library.path="@;
    let brand = "-Dminecraft.launcher.brand="@;
    let ver = "-Dminecraft.launcher.version="@;
    let flag = "-XstartOnFirstThread"@;
    assert(lib.subrange(0, 2) =~= "-D"@);
    assert(brand.subrange(0, 2) =~= "-D"@);
    assert(ver.subrange(0, 2) =~= "-D"@);
    assert(lib.subrange(0, 1) =~= "-"@);
    assert(brand.subrange(0, 1) =~= "-"@);
    assert(ver.subrange(0, 1) =~= "-"@);
    assert(flag.subrange(0, 1) =~= "-"@);
    let a1 = if os == OperatingSystem::OSX {
        ensure_flag(jvm, flag)
    } else {
        jvm
    };
    if os == OperatingSystem::OSX {
        if !jvm.contains(flag) {
            assert(flag != "-cp"@) by {
                assert(flag.len() != 3);
            }
            lemma_insert_front(jvm, flag, lib, flag);
            assert(jvm.insert(0, flag)[0] == flag);
        }
        assert(a1.contains(flag));
    }
    assert(options_not_after_cp(a1));
    let a2 = ensure_prefixed(a1, lib, value_or_empty(vars, KEY_NATIVES_DIRECTORY@));
    lemma_ensure_prefixed(a1, lib, value_or_empty(vars, KEY_NATIVES_DIRECTORY@), lib, flag);
    let a3 = ensure_prefixed(a2, brand, value_or_empty(vars, KEY_LAUNCHER_NAME@));
    lemma_ensure_prefixed(a2, brand, value_or_empty(vars, KEY_LAUNCHER_NAME@), lib, flag);
    let a4 = ensure_prefixed(a3, ver, value_or_empty(vars, KEY_LAUNCHER_VERSION@));
    lemma_ensure_prefixed(a3, ver, value_or_empty(vars, KEY_LAUNCHER_VERSION@), lib, flag);
    lemma_ensure_prefixed(a3, ver, value_or_empty(vars, KEY_LAUNCHER_VERSION@), brand, flag);
    let cp = value_or_empty(vars, KEY_CLASSPATH@);
    let m = module_path_of(a4);
    lemma_place_classpath_keeps(os, a4, cp, m, lib, flag);
    lemma_place_classpath_keeps(os, a4, cp, m, brand, flag);
    lemma_place_classpath_keeps(os, a4, cp, m, ver, flag);
}

/// A JAR stem made of a name, a dash and a version that starts with a digit
/// and holds no dash has the name as its artifact, whatever digits or dashes
/// the name itself holds; so two JARs that differ only in their version
/// have the same artifact.
pub proof fn lemma_artifact_of_versioned_stem(n: Seq<char>, v: Seq<char>, w: Seq<char>)
    requires
        v.len() > 0,
        is_ascii_digit(v[0]),
        !v.contains('-'),
        w.len() > 0,
        is_ascii_digit(w[0]),
        !w.contains('-'),
    ensures
        artifact_base(n + seq!['-'] + v) == n,
        artifact_base(n + seq!['-'] + v) == artifact_base(n + seq!['-'] + w),
{
    lemma_artifact_versioned(n, v);
    lemma_artifact_versioned(n, w);
}

proof fn lemma_artifact_versioned(n: Seq<char>, v: Seq<char>)
    requires
        v.len() > 0,
        is_ascii_digit(v[0]),
        !v.contains('-'),
    ensures
        artifact_base(n + seq!['-'] + v) == n,
{
    let stem = n + seq!['-'] + v;
    let digit = |c: char| is_ascii_digit(c);
    let dash = |c: char| c == '-';
    let d0 = n.len() as int;
    assert(stem[d0 + 1] == v[0]);
    lemma_last_match_at_least(stem, digit, d0 + 1);
    let pos = last_match(stem, digit).unwrap();
    let sub = stem.subrange(0, pos);
    assert(sub[d0] == '-');
    assert forall|k: int| d0 < k < sub.len() implies !dash(sub[k]) by {
        assert(sub[k] == v[k - d0 - 1]);
        if sub[k] == '-' {
            assert(v.contains('-'));
        }
    }
    assert(is_last_match(sub, dash, d0));
    lemma_last_match_unique(sub, dash, d0);
    assert(stem.subrange(0, d0) =~= n);
}

/// The asset index the game is told to use: the version's own index when
/// it has one, the Minecraft version otherwise; a lone
/// `${assets_index_name}` argument becomes exactly that.
pub proof fn lemma_assets_index_variable(
    os: OperatingSystem,
    inst: InstanceInfo,
    version: Version,
    username: Seq<char>,
    uuid: Seq<char>,
    launcher_name: Seq<char>,
    launcher_version: Seq<char>,
)
    ensures
        ({
            let vars = launch_variables(os, inst, version, username, uuid, launcher_name, launcher_version);
            &&& vars.contains_key("assets_index_name"@)
            &&& version.assets_index_id matches Some(id) ==> vars["assets_index_name"@] == id@
            &&& version.assets_index_id is None ==> vars["assets_index_name"@] == inst.minecraft_version@
            &&& substitute("${assets_index_name}"@, vars) == vars["assets_index_name"@]
        }),
{
    reveal_strlit("assets_index_name");
    reveal_strlit("launcher_name");
    reveal_strlit("launcher_version");
    reveal_strlit("classpath");
    reveal_strlit("classpath_separator");
    reveal_strlit("${assets_index_name}");
    reveal_strlit("${");
    reveal_strlit("}");
    let vars = launch_variables(os, inst, version, username, uuid, launcher_name, launcher_version);
    let key = "assets_index_name"@;
    assert(key != "launcher_name"@ && key != "launcher_version"@ && key != "classpath"@ && key
        != "classpath_separator"@) by {
        assert(key[0] != "launcher_name"@[0]);
        assert(key[0] != "classpath"@[0]);
        assert(key[0] != "classpath_separator"@[0]);
    }
    assert(!contains(key, "}"@)) by {
        if contains(key, "}"@) {
            let i = choose|i: int| occurs_at(key, "}"@, i);
            assert(key.subrange(i, i + 1)[0] == key[i]);
        }
    }
    lemma_substitute_placeholder(key, vars);
    assert("${"@ + key + "}"@ =~= "${assets_index_name}"@);
}

/// When the JVM arguments already carry `-cp` (first at `c`) with a value
/// after it and a module path `m` (the argument after the first `-p`), the
/// classpath is put in place by filtering that value against `m` where it
/// stands, and every other argument is left as it was; without a module
/// path nothing changes.
pub proof fn lemma_existing_classpath_filtered(
    os: OperatingSystem,
    args: Seq<Seq<char>>,
    classpath: Seq<char>,
    modules: Option<Seq<char>>,
    c: int,
)
    requires
        0 <= c,
        c + 1 < args.len(),
        args[c] == "-cp"@,
        forall|k: int| 0 <= k < c ==> args[k] != "-cp"@,
    ensures
        place_classpath(os, args, classpath, modules).len() == args.len(),
        forall|j: int|
            0 <= j < args.len() && j != c + 1 ==> #[trigger] place_classpath(os, args, classpath, modules)[j]
                == args[j],
        modules matches Some(m) ==> place_classpath(os, args, classpath, modules)[c + 1] == filtered_classpath(
            os,
            args[c + 1],
            m,
        ),
        modules is None ==> place_classpath(os, args, classpath, modules) == args,
{
    let is_cp = |a: Seq<char>| a == "-cp"@;
    assert(is_first_match(args, is_cp, c));
    lemma_first_match_unique(args, is_cp, c);
}

/// The filtered classpath is made of entries of the original one, in order,
/// joined by the separator: every JAR whose artifact is on the module path
/// is left out, and every other entry is kept.
pub proof fn lemma_filtered_classpath_entries(os: OperatingSystem, classpath: Seq<char>, modulepath: Seq<char>)
    ensures
        ({
            let sep = crate::system::spec_classpath_separator(os);
            let entries = split_char(classpath, sep);
            let modules = split_char(modulepath, sep);
            exists|kept: Seq<Seq<char>>|
                #![trigger join(kept, seq![sep])]
                {
                &&& filtered_classpath(os, classpath, modulepath) == join(kept, seq![sep])
                &&& forall|k: int| 0 <= k < kept.len() ==> entries.contains(#[trigger] kept[k])
                &&& forall|k: int, j: int|
                    0 <= k < kept.len() && 0 <= j < modules.len() && jar_artifact(os, #[trigger] kept[k]) is Some
                        ==> jar_artifact(os, #[trigger] modules[j]) != jar_artifact(os, kept[k])
                &&& forall|i: int|
                    0 <= i < entries.len() && !(exists|j: int|
                        0 <= j < modules.len() && jar_artifact(os, #[trigger] modules[j]) is Some
                            && jar_artifact(os, modules[j]) == jar_artifact(os, entries[i])) ==> kept.contains(
                        #[trigger] entries[i],
                    )
                }
        }),
{
    let sep = crate::system::spec_classpath_separator(os);
    let entries = split_char(classpath, sep);
    let modules = split_char(modulepath, sep);
    let pred = |e: Seq<char>| classpath_entry_kept(os, modules, e);
    let kept = entries.filter(pred);
    assert forall|k: int| 0 <= k < kept.len() implies entries.contains(#[trigger] kept[k]) by {
        assert(kept.contains(kept[k]));
        entries.lemma_filter_contains_rev(pred, kept[k]);
    }
    assert forall|k: int, j: int|
        0 <= k < kept.len() && 0 <= j < modules.len() && jar_artifact(os, #[trigger] kept[k]) is Some implies jar_artifact(
        os,
        #[trigger] modules[j],
    ) != jar_artifact(os, kept[k]) by {
        entries.lemma_filter_pred(pred, k);
        assert(pred(kept[k]));
    }
    assert forall|i: int|
        0 <= i < entries.len() && !(exists|j: int|
            0 <= j < modules.len() && jar_artifact(os, #[trigger] modules[j]) is Some && jar_artifact(os, modules[j])
                == jar_artifact(os, entries[i])) implies kept.contains(#[trigger] entries[i]) by {
        assert(pred(entries[i]));
        entries.lemma_filter_contains(pred, i);
    }
    assert(filtered_classpath(os, classpath, modulepath) == join(kept, seq![sep]));
}

} // verus!
