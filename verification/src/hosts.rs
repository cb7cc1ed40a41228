//! The hosts-file guard: entries that redirect the authentication and game
//! domains are reported.

use vstd::prelude::*;
use vstd::string::StringExecFns;
use crate::system::OperatingSystem;
use crate::text::{
    contains, contains_exec, extend_chars, from_chars, join, join_exec, lemma_views_push,
    lines, lines_exec, split_ws, split_ws_exec, starts_with, starts_with_exec, to_chars, trim_start,
    trim_start_exec, views,
};

verus! {

/// Errors of the hosts-file check.
#[derive(Debug)]
pub enum HostsError {
    /// The hosts file exists but could not be read
    HostsReadError(String),
    /// The hosts file holds entries for the listed domains
    HostsBlocked(String),
    /// A filesystem error
    IoError(std::io::Error),
}

/// Whether `domain` names one of the guarded domains.
pub open spec fn is_guarded_domain(domain: Seq<char>) -> bool {
    contains(domain, "mojang.com"@) || contains(domain, "minecraft.net"@) || contains(
        domain,
        "lightylauncher.fr"@,
    )
}

/// The guarded names of one hosts line: none for a comment; otherwise the
/// whitespace-separated words after the first (the address) that contain a
/// guarded domain.
pub open spec fn line_flagged(line: Seq<char>) -> Seq<Seq<char>> {
    if starts_with(trim_start(line), "#"@) {
        seq![]
    } else {
        let words = split_ws(line);
        if words.len() == 0 {
            seq![]
        } else {
            words.drop_first().filter(|d: Seq<char>| is_guarded_domain(d))
        }
    }
}

/// The guarded names of all lines, in order.
pub open spec fn flagged_in_lines(ls: Seq<Seq<char>>) -> Seq<Seq<char>>
    decreases ls.len(),
{
    if ls.len() == 0 {
        seq![]
    } else {
        flagged_in_lines(ls.drop_last()) + line_flagged(ls.last())
    }
}

/// The guarded names a hosts file redirects.
pub open spec fn flagged_entries(content: Seq<char>) -> Seq<Seq<char>> {
    flagged_in_lines(lines(content))
}

/// Lists the guarded names of one line.
fn line_flagged_exec(line: &[char], out: &mut Vec<Vec<char>>)
    ensures
        views(final(out)@) == views(old(out)@) + line_flagged(line@),
{
    let hash = to_chars("#");
    let lead = trim_start_exec(line);
    if starts_with_exec(lead.as_slice(), hash.as_slice()) {
        assert(views(out@) + Seq::<Seq<char>>::empty() =~= views(out@));
        return;
    }
    let words = split_ws_exec(line);
    if words.len() == 0 {
        assert(views(out@) + Seq::<Seq<char>>::empty() =~= views(out@));
        return;
    }
    let m = to_chars("mojang.com");
    let n = to_chars("minecraft.net");
    let l = to_chars("lightylauncher.fr");
    let ghost ws = views(words@).drop_first();
    let ghost pred = |d: Seq<char>| is_guarded_domain(d);
    let ghost start = views(out@);
    let mut i: usize = 1;
    assert(ws.subrange(0, 0).filter(pred) =~= Seq::<Seq<char>>::empty()) by {
        reveal_with_fuel(Seq::filter, 1);
    }
    assert(start + Seq::<Seq<char>>::empty() =~= start);
    while i < words.len()
        invariant
            1 <= i <= words@.len(),
            ws == views(words@).drop_first(),
            pred == (|d: Seq<char>| is_guarded_domain(d)),
            m@ == "mojang.com"@,
            n@ == "minecraft.net"@,
            l@ == "lightylauncher.fr"@,
            views(out@) == start + ws.subrange(0, i - 1).filter(pred),
        decreases words.len() - i,
    {
        let w = &words[i];
        proof {
            reveal_with_fuel(Seq::filter, 1);
            assert(ws.subrange(0, i as int).drop_last() =~= ws.subrange(0, i - 1));
            assert(ws.subrange(0, i as int).last() == w@);
        }
        if contains_exec(w.as_slice(), m.as_slice()) || contains_exec(w.as_slice(), n.as_slice())
            || contains_exec(w.as_slice(), l.as_slice()) {
            let copy = crate::text::copy_range(w.as_slice(), 0, w.len());
            assert(w@.subrange(0, w@.len() as int) =~= w@);
            let ghost o = views(out@);
            proof {
                lemma_views_push(out@, copy);
            }
            out.push(copy);
            assert(views(out@) =~= start + ws.subrange(0, i as int).filter(pred));
        }
        i += 1;
    }
    assert(ws.subrange(0, ws.len() as int) =~= ws);
}

/// Lists the guarded names that a hosts file redirects.
pub fn find_flagged_entries(content: &str) -> (r: Vec<String>)
    ensures
        crate::text::str_views(r@) == flagged_entries(content@),
{
    let c = to_chars(content);
    let ls = lines_exec(c.as_slice());
    let mut out: Vec<Vec<char>> = Vec::new();
    let mut i: usize = 0;
    while i < ls.len()
        invariant
            i <= ls@.len(),
            views(ls@) == lines(content@),
            views(out@) == flagged_in_lines(views(ls@).subrange(0, i as int)),
        decreases ls.len() - i,
    {
        proof {
            assert(views(ls@).subrange(0, i + 1).drop_last() =~= views(ls@).subrange(0, i as int));
            assert(views(ls@).subrange(0, i + 1).last() == ls@[i as int]@);
        }
        line_flagged_exec(ls[i].as_slice(), &mut out);
        i += 1;
    }
    assert(views(ls@).subrange(0, ls@.len() as int) =~= views(ls@));
    crate::text::to_strings(&out)
}

/// Checks the content of a hosts file: refused, with the flagged names one
/// per line, when it redirects a guarded domain.
pub fn check_hosts_content(content: &str) -> (r: Result<(), HostsError>)
    ensures
        flagged_entries(content@).len() == 0 <==> r is Ok,
        r matches Err(e) ==> (e matches HostsError::HostsBlocked(msg) && msg@ == join(
            flagged_entries(content@),
            "\n"@,
        )),
{
    let flagged = find_flagged_entries(content);
    if flagged.len() == 0 {
        return Ok(());
    }
    let parts = crate::text::to_char_vecs(flagged.as_slice());
    let nl = vec!['\n'];
    assert(nl@ =~= "\n"@) by {
        reveal_strlit("\n");
    }
    let joined = join_exec(&parts, nl.as_slice());
    Err(HostsError::HostsBlocked(from_chars(joined.as_slice())))
}

/// The path of the hosts file: `<drive>\System32\drivers\etc\hosts` on
/// Windows (drive `C:` when the system drive is unknown), `/etc/hosts`
/// elsewhere.
pub open spec fn hosts_path_of(os: OperatingSystem, system_drive: Option<Seq<char>>) -> Seq<char> {
    if os == OperatingSystem::WINDOWS {
        (match system_drive {
            Some(d) => d,
            None => "C:"@,
        }) + "\\"@ + "System32\\drivers\\etc\\hosts"@
    } else {
        "/"@ + "etc/hosts"@
    }
}

/// Builds the path of the hosts file.
pub fn hosts_path(os: OperatingSystem, system_drive: Option<String>) -> (r: String)
    ensures
        r@ == hosts_path_of(
            os,
            match system_drive {
                Some(d) => Some(d@),
                None => None,
            },
        ),
{
    let mut p: Vec<char> = Vec::new();
    if os == OperatingSystem::WINDOWS {
        let d = match system_drive {
            Some(d) => d,
            None => String::from_str("C:"),
        };
        let dc = to_chars(d.as_str());
        extend_chars(&mut p, dc.as_slice());
        let sep = to_chars("\\");
        extend_chars(&mut p, sep.as_slice());
        let rest = to_chars("System32\\drivers\\etc\\hosts");
        extend_chars(&mut p, rest.as_slice());
    } else {
        let sep = to_chars("/");
        extend_chars(&mut p, sep.as_slice());
        let rest = to_chars("etc/hosts");
        extend_chars(&mut p, rest.as_slice());
    }
    from_chars(p.as_slice())
}

/// Every name a hosts file is refused for names a guarded domain, and a
/// comment line never contributes one.
pub proof fn lemma_flagged_names_are_guarded(ls: Seq<Seq<char>>)
    ensures
        forall|k: int|
            0 <= k < flagged_in_lines(ls).len() ==> is_guarded_domain(#[trigger] flagged_in_lines(ls)[k]),
        forall|line: Seq<char>| starts_with(trim_start(line), "#"@) ==> #[trigger] line_flagged(line).len() == 0,
    decreases ls.len(),
{
    if ls.len() > 0 {
        lemma_flagged_names_are_guarded(ls.drop_last());
        let prev = flagged_in_lines(ls.drop_last());
        let cur = line_flagged(ls.last());
        assert forall|k: int| 0 <= k < cur.len() implies is_guarded_domain(#[trigger] cur[k]) by {
            if !starts_with(trim_start(ls.last()), "#"@) {
                let words = split_ws(ls.last());
                if words.len() > 0 {
                    words.drop_first().lemma_filter_pred(|d: Seq<char>| is_guarded_domain(d), k);
                }
            }
        }
        assert forall|k: int| 0 <= k < flagged_in_lines(ls).len() implies is_guarded_domain(
            #[trigger] flagged_in_lines(ls)[k],
        ) by {
            if k < prev.len() {
                assert(flagged_in_lines(ls)[k] == prev[k]);
            } else {
                assert(flagged_in_lines(ls)[k] == cur[k - prev.len()]);
            }
        }
    }
}

} // verus!
