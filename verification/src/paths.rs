//! Checking tool paths.
//!
//! A tool path is either used as it is (when it names a directory) or looked
//! up through the `PATH` directories, trying the `PATHEXT` extensions when the
//! name has none. The file system is probed by the program around the
//! library; this module decides what to probe, and in what order.
use vstd::prelude::*;

use crate::text::{
    all_white_space, chars_of, has_char, law_trim_ignores_padding, replace_char, replace_char_spec,
    same_text, string_from_chars, string_from_range, to_lowercase, trim, trimmed, unicode_lowercase,
};

verus! {

/// What to do with a tool path to find out whether it exists.
pub enum ToolPathCheck {
    /// The path is blank: there is no tool.
    Blank,
    /// The path names a directory: probe it as it is.
    Direct(String),
    /// A bare file name: look for it in the `PATH` directories.
    Search(String),
}

/// The trimmed path names a directory: it holds `\` or `/`.
///
/// Every absolute path holds one of them, on Windows as elsewhere, so this
/// also covers absolute paths.
pub open spec fn names_directory(p: Seq<char>) -> bool {
    p.contains('\\') || p.contains('/')
}

/// What checking a tool path comes to: `None` for a blank path, else whether
/// the trimmed path is probed as it is (`true`) or searched for (`false`),
/// with the trimmed path.
pub open spec fn path_check(path: Seq<char>) -> Option<(bool, Seq<char>)> {
    let t = trimmed(path);
    if t.len() == 0 {
        None
    } else {
        Some((names_directory(t), t))
    }
}

/// The view of a [`ToolPathCheck`] in the terms of [`path_check`].
pub open spec fn check_view(c: ToolPathCheck) -> Option<(bool, Seq<char>)> {
    match c {
        ToolPathCheck::Blank => None,
        ToolPathCheck::Direct(p) => Some((true, p@)),
        ToolPathCheck::Search(p) => Some((false, p@)),
    }
}

/// A non-blank path is probed as it is exactly when, trimmed, it holds `\`
/// or `/`; a bare name, with or without an extension, is searched for
/// through `PATH`.
pub proof fn law_only_paths_with_a_separator_are_probed(p: Seq<char>)
    ensures
        path_check(p) is None <==> trimmed(p).len() == 0,
        path_check(p) matches Some((direct, t)) ==> t == trimmed(p) && (direct <==> (t.contains('\\')
            || t.contains('/'))),
{
}

/// How a tool path is checked.
pub fn classify_tool_path(path: &str) -> (r: ToolPathCheck)
    ensures
        check_view(r) == path_check(path@),
        r is Blank <==> trimmed(path@).len() == 0,
        r matches ToolPathCheck::Direct(p) ==> p@ == trimmed(path@) && (p@.contains('\\') || p@.contains(
            '/',
        )),
        r matches ToolPathCheck::Search(p) ==> p@ == trimmed(path@) && !p@.contains('\\') && !p@.contains(
            '/',
        ),
        trimmed(path@).len() == 0 <==> r is Blank,
        r matches ToolPathCheck::Direct(p) ==> p@ == trimmed(path@) && names_directory(p@),
        r matches ToolPathCheck::Search(p) ==> p@ == trimmed(path@) && !names_directory(p@),
        trimmed(path@).len() > 0 ==> (r is Direct <==> names_directory(trimmed(path@))),
{
    let t = trim(path);
    if t.as_str().unicode_len() == 0 {
        ToolPathCheck::Blank
    } else if has_char(t.as_str(), '\\') || has_char(t.as_str(), '/') {
        ToolPathCheck::Direct(t)
    } else {
        ToolPathCheck::Search(t)
    }
}

/// Whitespace around a tool path does not change how it is checked, and
/// checking the trimmed path is checking the path.
pub proof fn law_path_check_ignores_padding(p: Seq<char>, a: Seq<char>, b: Seq<char>)
    requires
        all_white_space(a),
        all_white_space(b),
    ensures
        path_check(a + p + b) == path_check(p),
        path_check(trimmed(p)) == path_check(p),
{
    law_trim_ignores_padding(p, a, b);
}

/// Index of the last `.` in `s`; -1 when `s` holds none.
pub open spec fn last_dot(s: Seq<char>) -> int
    decreases s.len(),
{
    if s.len() == 0 {
        -1
    } else if s.last() == '.' {
        s.len() - 1
    } else {
        last_dot(s.drop_last())
    }
}

/// The stem and the extension of a file name, split as `Path::file_stem` and
/// `Path::extension` split one: the text before and after its last `.`; the
/// whole name and no extension when it holds no `.`, or only a leading one.
pub open spec fn name_parts(name: Seq<char>) -> (Seq<char>, Option<Seq<char>>) {
    let k = last_dot(name);
    if k <= 0 {
        (name, None)
    } else {
        (name.take(k), Some(name.skip(k + 1)))
    }
}

proof fn lemma_last_dot_bounds(s: Seq<char>)
    ensures
        -1 <= last_dot(s) < s.len(),
        last_dot(s) >= 0 ==> s[last_dot(s)] == '.',
    decreases s.len(),
{
    if s.len() > 0 && s.last() != '.' {
        lemma_last_dot_bounds(s.drop_last());
    }
}

/// Splits a file name into its stem and its extension.
pub fn split_file_name(name: &str) -> (r: (String, Option<String>))
    ensures
        r.0@ == name_parts(name@).0,
        r.1 is None <==> name_parts(name@).1 is None,
        r.1 matches Some(e) ==> name_parts(name@).1 == Some(e@),
{
    let cs = chars_of(name);
    let mut last: Option<usize> = None;
    let mut i: usize = 0;
    while i < cs.len()
        invariant
            i <= cs.len(),
            cs@ == name@,
            last is None ==> last_dot(cs@.take(i as int)) == -1,
            last matches Some(k) ==> last_dot(cs@.take(i as int)) == k && k < i,
        decreases cs.len() - i,
    {
        proof {
            assert(cs@.take(i + 1).drop_last() =~= cs@.take(i as int));
        }
        if cs[i] == '.' {
            last = Some(i);
        }
        i = i + 1;
    }
    assert(cs@.take(cs.len() as int) =~= cs@);
    proof {
        lemma_last_dot_bounds(cs@);
    }
    match last {
        Some(k) if k > 0 => {
            let stem = string_from_range(&cs, 0, k);
            let ext = string_from_range(&cs, k + 1, cs.len());
            assert(cs@.subrange(0, k as int) =~= cs@.take(k as int));
            assert(cs@.subrange(k + 1, cs.len() as int) =~= cs@.skip(k + 1));
            (stem, Some(ext))
        },
        _ => (string_from_chars(&cs), None),
    }
}

/// The extensions tried when `PATHEXT` is not set.
pub const DEFAULT_PATHEXT: &'static str = ".EXE;.BAT;.CMD;.COM";

/// The non-empty pieces of `s` between `sep` characters, given the piece read
/// so far (what `split(sep)` yields once empty pieces are dropped).
pub open spec fn pieces_from(s: Seq<char>, sep: char, cur: Seq<char>) -> Seq<Seq<char>>
    decreases s.len(),
{
    if s.len() == 0 {
        if cur.len() > 0 {
            seq![cur]
        } else {
            seq![]
        }
    } else if s[0] == sep {
        (if cur.len() > 0 {
            seq![cur]
        } else {
            seq![]
        }) + pieces_from(s.drop_first(), sep, seq![])
    } else {
        pieces_from(s.drop_first(), sep, cur.push(s[0]))
    }
}

pub open spec fn pieces(s: Seq<char>, sep: char) -> Seq<Seq<char>> {
    pieces_from(s, sep, seq![])
}

/// The non-empty pieces of `s` between `sep` characters.
pub fn split_pieces(s: &str, sep: char) -> (r: Vec<String>)
    ensures
        crate::text::views(r@) == pieces(s@, sep),
{
    let cs = chars_of(s);
    let mut out: Vec<String> = Vec::new();
    let mut cur: Vec<char> = Vec::new();
    let mut i: usize = 0;
    assert(cs@.skip(0) =~= cs@);
    assert(crate::text::views(out@) + pieces_from(cs@, sep, cur@) =~= pieces(s@, sep));
    while i < cs.len()
        invariant
            cs@ == s@,
            i <= cs.len(),
            crate::text::views(out@) + pieces_from(cs@.skip(i as int), sep, cur@) == pieces(s@, sep),
        decreases cs.len() - i,
    {
        let ghost rest = cs@.skip(i as int);
        let ghost old_out = out@;
        let c = cs[i];
        assert(rest[0] == c);
        assert(rest.drop_first() =~= cs@.skip(i + 1));
        if c == sep {
            if cur.len() > 0 {
                let w = string_from_chars(&cur);
                out.push(w);
                assert(crate::text::views(out@) =~= crate::text::views(old_out) + seq![cur@]);
            }
            cur = Vec::new();
        } else {
            cur.push(c);
        }
        i = i + 1;
        assert(crate::text::views(out@) + pieces_from(cs@.skip(i as int), sep, cur@) =~= pieces(
            s@,
            sep,
        ));
    }
    let ghost old_out = out@;
    if cur.len() > 0 {
        let w = string_from_chars(&cur);
        out.push(w);
        assert(crate::text::views(out@) =~= crate::text::views(old_out) + seq![cur@]);
    }
    assert(cs@.skip(cs.len() as int) =~= Seq::<char>::empty());
    assert(crate::text::views(out@) =~= pieces(s@, sep));
    out
}

/// A file to probe: `file` inside directory `dir`.
pub struct Candidate {
    pub dir: String,
    pub file: String,
}

/// A candidate as plain values.
pub open spec fn candidate_view(c: Candidate) -> (Seq<char>, Seq<char>) {
    (c.dir@, c.file@)
}

/// The files tried in one directory: the name itself, then, for a name without
/// an extension, the name with each extension appended.
pub open spec fn dir_candidates(dir: Seq<char>, name: Seq<char>, has_extension: bool, exts: Seq<Seq<char>>) -> Seq<(Seq<char>, Seq<char>)> {
    seq![(dir, name)] + if has_extension {
        seq![]
    } else {
        exts.map_values(|e: Seq<char>| (dir, name + e))
    }
}

/// Every file tried for `name`, in order: the directories in `PATH` order,
/// empty directory entries skipped.
pub open spec fn search_order(dirs: Seq<Seq<char>>, name: Seq<char>, has_extension: bool, exts: Seq<Seq<char>>) -> Seq<(Seq<char>, Seq<char>)>
    decreases dirs.len(),
{
    if dirs.len() == 0 {
        seq![]
    } else {
        search_order(dirs.drop_last(), name, has_extension, exts) + if dirs.last().len() == 0 {
            seq![]
        } else {
            dir_candidates(dirs.last(), name, has_extension, exts)
        }
    }
}

/// The extensions tried: the non-empty entries of `PATHEXT`, or of the default
/// list when it is not set.
pub open spec fn extensions(pathext: Option<Seq<char>>) -> Seq<Seq<char>> {
    match pathext {
        Some(p) => pieces(p, ';'),
        None => pieces(DEFAULT_PATHEXT@, ';'),
    }
}

/// The files to probe, in order, when looking `name` up through `PATH`:
/// the first that exists is the tool.
pub fn search_candidates(name: &str, has_extension: bool, dirs: &Vec<String>, pathext: Option<&str>) -> (r: Vec<Candidate>)
    ensures
        r@.map_values(|c: Candidate| candidate_view(c)) == search_order(
            crate::text::views(dirs@),
            name@,
            has_extension,
            extensions(match pathext {
                Some(p) => Some(p@),
                None => None,
            }),
        ),
{
    let exts = match pathext {
        Some(p) => split_pieces(p, ';'),
        None => split_pieces(DEFAULT_PATHEXT, ';'),
    };
    let ghost ev = crate::text::views(exts@);
    let ghost dv = crate::text::views(dirs@);
    let mut out: Vec<Candidate> = Vec::new();
    let mut d: usize = 0;
    while d < dirs.len()
        invariant
            d <= dirs.len(),
            ev == crate::text::views(exts@),
            dv == crate::text::views(dirs@),
            out@.map_values(|c: Candidate| candidate_view(c)) == search_order(dv.take(d as int), name@, has_extension, ev),
        decreases dirs.len() - d,
    {
        let dir = &dirs[d];
        let ghost before = out@.map_values(|c: Candidate| candidate_view(c));
        if dir.as_str().unicode_len() > 0 {
            out.push(Candidate { dir: dir.clone(), file: String::from_str(name) });
            if !has_extension {
                let mut e: usize = 0;
                while e < exts.len()
                    invariant
                        e <= exts.len(),
                        ev == crate::text::views(exts@),
                        dir@.len() > 0,
                        out@.map_values(|c: Candidate| candidate_view(c)) == before + seq![(dir@, name@)]
                            + ev.take(e as int).map_values(|x: Seq<char>| (dir@, name@ + x)),
                    decreases exts.len() - e,
                {
                    let ghost prev = out@.map_values(|c: Candidate| candidate_view(c));
                    let mut file = String::from_str(name);
                    file.append(exts[e].as_str());
                    out.push(Candidate { dir: dir.clone(), file });
                    proof {
                        assert(ev[e as int] == exts@[e as int]@);
                        assert(ev.take(e + 1) =~= ev.take(e as int).push(ev[e as int]));
                        assert(out@.map_values(|c: Candidate| candidate_view(c)) =~= prev.push((dir@, name@ + ev[e as int])));
                        assert(ev.take(e + 1).map_values(|x: Seq<char>| (dir@, name@ + x)) =~= ev.take(e as int).map_values(|x: Seq<char>| (dir@, name@ + x)).push((dir@, name@ + ev[e as int])));
                    }
                    e = e + 1;
                    assert(out@.map_values(|c: Candidate| candidate_view(c)) =~= before + seq![(dir@, name@)]
                        + ev.take(e as int).map_values(|x: Seq<char>| (dir@, name@ + x)));
                }
                assert(ev.take(exts.len() as int) =~= ev);
            }
            assert(out@.map_values(|c: Candidate| candidate_view(c)) =~= before + dir_candidates(dir@, name@, has_extension, ev));
        }
        proof {
            let t = dv.take(d + 1);
            assert(t.drop_last() =~= dv.take(d as int));
            assert(t.last() == dir@);
        }
        d = d + 1;
        assert(out@.map_values(|c: Candidate| candidate_view(c)) =~= search_order(dv.take(d as int), name@, has_extension, ev));
    }
    assert(dv.take(dirs.len() as int) =~= dv);
    out
}

/// A path compared without regard to letter case or slash direction.
pub open spec fn normalized_path(p: Seq<char>) -> Seq<char> {
    unicode_lowercase(replace_char_spec(p, '/', '\\'))
}

/// Whether two paths are the same once `/` is read as `\` and letter case is
/// ignored.
/// `p` with each `/` turned into `\\`, every other character kept in place.
pub open spec fn with_backslashes(p: Seq<char>) -> Seq<char> {
    Seq::new(p.len(), |i: int| if p[i] == '/' { '\\' } else { p[i] })
}

/// Paths are compared whole: what is compared is the lower-cased path with
/// its slashes turned into backslashes, every character kept (the drive
/// letter too), and a path that differs from another only in the direction
/// of its slashes compares equal to it.
pub proof fn law_paths_compared_whole(a: Seq<char>, b: Seq<char>)
    ensures
        normalized_path(a) == unicode_lowercase(with_backslashes(a)),
        with_backslashes(a).len() == a.len(),
        (a.len() == b.len() && forall|i: int|
            0 <= i < a.len() ==> (a[i] == b[i] || ((a[i] == '/' || a[i] == '\\') && (b[i] == '/' || b[i]
                == '\\')))) ==> normalized_path(a) == normalized_path(b),
{
    assert(replace_char_spec(a, '/', '\\') =~= with_backslashes(a));
    assert(replace_char_spec(b, '/', '\\') =~= with_backslashes(b));
    if a.len() == b.len() && forall|i: int|
        0 <= i < a.len() ==> (a[i] == b[i] || ((a[i] == '/' || a[i] == '\\') && (b[i] == '/' || b[i]
            == '\\'))) {
        assert(with_backslashes(a) =~= with_backslashes(b));
    }
}

pub fn paths_equal(a: &str, b: &str) -> (r: bool)
    ensures
        r == (normalized_path(a@) == normalized_path(b@)),
        r == (unicode_lowercase(with_backslashes(a@)) == unicode_lowercase(with_backslashes(b@))),
{
    proof {
        law_paths_compared_whole(a@, b@);
        law_paths_compared_whole(b@, a@);
    }
    let x = to_lowercase(replace_char(a, '/', '\\').as_str());
    let y = to_lowercase(replace_char(b, '/', '\\').as_str());
    same_text(x.as_str(), y.as_str())
}

} // verus!
