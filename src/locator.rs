//! The directories to scan: the system application directory, the user's
//! application directory, then the directories of the search path.
use vstd::prelude::*;
use vstd::string::*;
use crate::item::strings_view;
use crate::text::{split_chars, split_on};

verus! {

/// The system-wide application directory.
pub open spec fn system_app_dir() -> Seq<char> {
    "/usr/share/applications"@
}

/// The user's application directory, relative to the home directory.
pub open spec fn user_app_subdir() -> Seq<char> {
    ".local/share/applications"@
}

/// `rel` appended to `base` as a path component: nothing in between where
/// `base` is empty or already ends with `/`, else one `/`.
pub open spec fn join_path(base: Seq<char>, rel: Seq<char>) -> Seq<char> {
    if base.len() == 0 {
        rel
    } else if base.last() == '/' {
        base + rel
    } else {
        base + seq!['/'] + rel
    }
}

/// `s` with every element that already occurred earlier removed.
pub open spec fn dedup_first(s: Seq<Seq<char>>) -> Seq<Seq<char>>
    decreases s.len(),
{
    if s.len() == 0 {
        s
    } else if s.drop_last().contains(s.last()) {
        dedup_first(s.drop_last())
    } else {
        dedup_first(s.drop_last()).push(s.last())
    }
}

/// The directories of a colon-separated search path, each once, in the
/// order of first occurrence.
pub open spec fn search_path_dirs(path_var: Seq<char>) -> Seq<Seq<char>> {
    dedup_first(split_on(path_var, ':'))
}

/// The ordered directories to scan, given the home directory and the search
/// path variable where they are known.
pub open spec fn resolved_dirs(home: Option<Seq<char>>, path_var: Option<Seq<char>>) -> Seq<
    Seq<char>,
> {
    seq![system_app_dir()] + match home {
        Some(h) => seq![join_path(h, user_app_subdir())],
        None => Seq::empty(),
    } + match path_var {
        Some(p) => search_path_dirs(p),
        None => Seq::empty(),
    }
}

pub open spec fn opt_str_view(o: Option<&str>) -> Option<Seq<char>> {
    match o {
        Some(s) => Some(s@),
        None => None,
    }
}

/// `rel` appended to `base` as a path component.
pub fn join_dir(base: &str, rel: &str) -> (r: String)
    ensures
        r@ == join_path(base@, rel@),
{
    let n = base.unicode_len();
    if n == 0 {
        return rel.to_owned();
    }
    let mut r = base.to_owned();
    if base.get_char(n - 1) != '/' {
        r.append("/");
        proof {
            reveal_strlit("/");
        }
    }
    r.append(rel);
    r
}

/// The directories of a colon-separated search path, duplicates dropped, in
/// the order of first occurrence.
pub fn split_search_path(path_var: &str) -> (r: Vec<String>)
    ensures
        strings_view(r@) == search_path_dirs(path_var@),
{
    let parts = split_chars(path_var, ':');
    let ghost pv = strings_view(parts@);
    let mut r: Vec<String> = Vec::new();
    let mut i: usize = 0;
    assert(pv.take(0) =~= Seq::<Seq<char>>::empty());
    assert(strings_view(r@) =~= Seq::<Seq<char>>::empty());
    while i < parts.len()
        invariant
            pv == strings_view(parts@),
            pv == split_on(path_var@, ':'),
            i <= parts@.len(),
            strings_view(r@) == dedup_first(pv.take(i as int)),
        decreases parts@.len() - i,
    {
        let mut seen = false;
        let mut k: usize = 0;
        while k < i
            invariant
                pv == strings_view(parts@),
                i < parts@.len(),
                k <= i,
                seen <==> exists|t: int| 0 <= t < k && #[trigger] pv[t] == pv[i as int],
            decreases i - k,
        {
            assert(pv[k as int] == parts@[k as int]@);
            assert(pv[i as int] == parts@[i as int]@);
            if parts[k].eq(&parts[i]) {
                seen = true;
            }
            k = k + 1;
            assert(seen ==> exists|t: int| 0 <= t < k && #[trigger] pv[t] == pv[i as int]) by {
                if seen && pv[k - 1] == pv[i as int] {
                    assert(pv[k - 1] == pv[i as int]);
                }
            }
        }
        let ghost pre = pv.take(i as int);
        assert(pv.take(i as int + 1).drop_last() =~= pre);
        assert(pv.take(i as int + 1).last() == pv[i as int]);
        if seen {
            proof {
                let t = choose|t: int| 0 <= t < i && #[trigger] pv[t] == pv[i as int];
                assert(pre[t] == pv[i as int]);
            }
        } else {
            assert forall|t: int| 0 <= t < pre.len() implies #[trigger] pre[t] != pv[i as int] by {
                assert(pre[t] == pv[t]);
            }
            let ghost prev = strings_view(r@);
            r.push(parts[i].clone());
            assert(strings_view(r@) =~= prev.push(pv[i as int]));
        }
        i = i + 1;
    }
    assert(pv.take(i as int) =~= pv);
    r
}

/// The directories to scan, in order: the system application directory, the
/// user's application directory where the home directory is known, then the
/// search path's directories.
pub fn resolve_directories(home: Option<&str>, path_var: Option<&str>) -> (r: Vec<String>)
    ensures
        strings_view(r@) == resolved_dirs(opt_str_view(home), opt_str_view(path_var)),
{
    let mut r: Vec<String> = Vec::new();
    r.push("/usr/share/applications".to_owned());
    let ghost first = strings_view(r@);
    assert(first =~= seq![system_app_dir()]);
    match home {
        Some(h) => {
            r.push(join_dir(h, ".local/share/applications"));
            assert(strings_view(r@) =~= first + seq![join_path(h@, user_app_subdir())]);
        },
        None => {
            assert(strings_view(r@) =~= first + Seq::<Seq<char>>::empty());
        },
    }
    let ghost with_home = strings_view(r@);
    match path_var {
        Some(p) => {
            let dirs = split_search_path(p);
            let mut k: usize = 0;
            while k < dirs.len()
                invariant
                    k <= dirs@.len(),
                    strings_view(r@) == with_home + strings_view(dirs@).take(k as int),
                decreases dirs@.len() - k,
            {
                let ghost prev = strings_view(r@);
                r.push(dirs[k].clone());
                assert(strings_view(r@) =~= prev.push(dirs@[k as int]@));
                k = k + 1;
                assert(strings_view(dirs@).take(k as int) =~= strings_view(dirs@).take(
                    k - 1,
                ).push(dirs@[k - 1]@));
            }
            assert(strings_view(dirs@).take(k as int) =~= strings_view(dirs@));
        },
        None => {
            assert(strings_view(r@) =~= with_home + Seq::<Seq<char>>::empty());
        },
    }
    r
}

} // verus!
