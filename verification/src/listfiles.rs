//! Depth-bounded listing over a directory tree. The tree is handed in as a
//! value — each entry carries its path, whether it is a directory, and
//! whether the caller's filter accepted it — so the traversal order and the
//! depth bound are checked here, while walking the real filesystem stays
//! outside the library. The ignore-pattern lines of a gitignore file are
//! gathered here too; compiling and matching them is the caller's side.

use vstd::prelude::*;

use crate::strutil::{chars_to_string, chunks_view, lines_of, spec_lines, str_chars};

verus! {

/// The images of a path vector.
pub open spec fn paths_view(s: Seq<String>) -> Seq<Seq<char>> {
    s.map_values(|t: String| t@)
}

/// One known entry of a directory tree.
pub struct FileNode {
    pub path: String,
    pub is_dir: bool,
    pub accepted: bool,
    pub children: Vec<FileNode>,
}

/// The accepted files among `nodes` and, down to the depth bound, their
/// subdirectories' entries, in traversal order.
pub open spec fn spec_list_from(nodes: Seq<FileNode>, depth: int, i: int) -> Seq<Seq<char>>
    decreases depth, nodes.len() - i,
{
    if depth <= 0 || i < 0 || i >= nodes.len() {
        Seq::empty()
    } else {
        (if nodes[i].is_dir {
            spec_list_from(nodes[i].children@, depth - 1, 0)
        } else if nodes[i].accepted {
            seq![nodes[i].path@]
        } else {
            Seq::empty()
        }) + spec_list_from(nodes, depth, i + 1)
    }
}

/// Lists the accepted files of the tree, directories recursed into while
/// the depth bound lasts.
pub fn list_files(dir: &Vec<FileNode>, depth: usize) -> (r: Vec<String>)
    ensures
        paths_view(r@) == spec_list_from(dir@, depth as int, 0),
    decreases depth,
{
    let mut out: Vec<String> = Vec::new();
    if depth == 0 {
        proof {
            assert(paths_view(out@) =~= spec_list_from(dir@, depth as int, 0));
        }
        return out;
    }
    let n = dir.len();
    let mut i: usize = 0;
    while i < n
        invariant
            i <= n,
            n == dir@.len(),
            depth >= 1,
            spec_list_from(dir@, depth as int, 0) == paths_view(out@) + spec_list_from(
                dir@,
                depth as int,
                i as int,
            ),
        decreases n - i,
    {
        if dir[i].is_dir {
            let sub = list_files(&dir[i].children, depth - 1);
            let ghost prev = out@;
            let m = sub.len();
            let mut j: usize = 0;
            while j < m
                invariant
                    j <= m,
                    m == sub@.len(),
                    paths_view(out@) == paths_view(prev) + paths_view(sub@).take(j as int),
                decreases m - j,
            {
                let ghost before = out@;
                let item = sub[j].clone();
                out.push(item);
                proof {
                    lemma_paths_view_push(before, out@[before.len() as int]);
                    assert(paths_view(sub@)[j as int] == sub@[j as int]@);
                    assert(paths_view(sub@).take(j + 1) =~= paths_view(sub@).take(
                        j as int,
                    ).push(sub@[j as int]@));
                    assert(paths_view(out@) =~= paths_view(prev) + paths_view(sub@).take(
                        j + 1,
                    ));
                }
                j = j + 1;
            }
            proof {
                let sv = paths_view(sub@);
                assert(sv.take(m as int) =~= sv);
                assert((paths_view(prev) + sv) + spec_list_from(dir@, depth as int, i + 1)
                    =~= paths_view(prev) + (sv + spec_list_from(dir@, depth as int, i + 1)));
            }
        } else if dir[i].accepted {
            let ghost before = out@;
            let item = dir[i].path.clone();
            out.push(item);
            proof {
                lemma_paths_view_push(before, out@[before.len() as int]);
                assert((paths_view(before).push(dir@[i as int].path@)) + spec_list_from(
                    dir@,
                    depth as int,
                    i + 1,
                ) =~= paths_view(before) + (seq![dir@[i as int].path@] + spec_list_from(
                    dir@,
                    depth as int,
                    i + 1,
                )));
            }
        } else {
            proof {
                assert(paths_view(out@) + (Seq::<Seq<char>>::empty() + spec_list_from(
                    dir@,
                    depth as int,
                    i + 1,
                )) =~= paths_view(out@) + spec_list_from(dir@, depth as int, i + 1));
            }
        }
        i = i + 1;
    }
    proof {
        assert(paths_view(out@) + spec_list_from(dir@, depth as int, n as int) =~= paths_view(
            out@,
        ));
    }
    out
}

/// Taking images commutes with appending one path.
proof fn lemma_paths_view_push(s: Seq<String>, x: String)
    ensures
        paths_view(s.push(x)) == paths_view(s).push(x@),
{
    assert forall|k: int| 0 <= k < s.len() + 1 implies #[trigger] paths_view(s.push(x))[k]
        == paths_view(s).push(x@)[k] by {
        if k < s.len() {
            assert(s.push(x)[k] == s[k]);
        } else {
            assert(s.push(x)[k] == x);
        }
    }
    assert(paths_view(s.push(x)) =~= paths_view(s).push(x@));
}

/// The text with leading blank space removed.
pub open spec fn trim_lead_ws(s: Seq<char>) -> Seq<char>
    decreases s.len(),
{
    if s.len() > 0 && crate::tools::files::is_ws(s[0]) {
        trim_lead_ws(s.drop_first())
    } else {
        s
    }
}

/// The text with blank space removed at both ends.
pub open spec fn trim_both(s: Seq<char>) -> Seq<char> {
    trim_lead_ws(crate::tools::files::trim_trailing_ws(s))
}

/// A line counts when it is not a comment and not blank.
pub open spec fn keeps_line(l: Seq<char>) -> bool {
    !(l.len() > 0 && l[0] == '#') && trim_both(l).len() > 0
}

/// The pattern lines of a gitignore text: the lines that are neither empty
/// nor comments, trimmed and wrapped as anchored patterns.
pub open spec fn spec_gitignore_patterns(lines: Seq<Seq<char>>) -> Seq<Seq<char>>
    decreases lines.len(),
{
    if lines.len() == 0 {
        Seq::empty()
    } else {
        spec_gitignore_patterns(lines.drop_last()) + (if keeps_line(lines.last()) {
            seq![seq!['^'] + trim_both(lines.last()) + seq!['$']]
        } else {
            Seq::empty()
        })
    }
}

/// The trimmed text of a line.
fn trim_both_exec(line: &Vec<char>) -> (r: Vec<char>)
    ensures
        r@ == trim_both(line@),
{
    let mut end = line.len();
    proof {
        assert(line@.take(line@.len() as int) =~= line@);
    }
    while end > 0 && crate::tools::files::is_ws_char(line[end - 1])
        invariant
            end <= line@.len(),
            crate::tools::files::trim_trailing_ws(line@)
                == crate::tools::files::trim_trailing_ws(line@.take(end as int)),
        decreases end,
    {
        proof {
            assert(line@.take(end as int).last() == line@[end - 1]);
            assert(line@.take(end as int).drop_last() =~= line@.take(end - 1));
        }
        end = end - 1;
    }
    proof {
        if end > 0 {
            assert(line@.take(end as int).last() == line@[end - 1]);
        }
        assert(crate::tools::files::trim_trailing_ws(line@.take(end as int)) == line@.take(
            end as int,
        ));
    }
    let ghost t = line@.take(end as int);
    let mut j: usize = 0;
    proof {
        assert(t.skip(0) =~= t);
    }
    while j < end && crate::tools::files::is_ws_char(line[j])
        invariant
            j <= end,
            end <= line@.len(),
            t == line@.take(end as int),
            trim_lead_ws(t) == trim_lead_ws(t.skip(j as int)),
        decreases end - j,
    {
        proof {
            assert(t.skip(j as int)[0] == line@[j as int]);
            assert(t.skip(j as int).drop_first() =~= t.skip(j + 1));
        }
        j = j + 1;
    }
    proof {
        if j < end {
            assert(t.skip(j as int)[0] == line@[j as int]);
        }
        assert(trim_lead_ws(t.skip(j as int)) == t.skip(j as int));
        assert(t.skip(j as int) =~= line@.subrange(j as int, end as int));
    }
    crate::strutil::slice_range(line, j, end)
}

/// Collects a gitignore text's pattern lines, anchored for matching whole
/// paths; compiling them is the caller's side.
pub fn gitignore_patterns(contents: &str) -> (r: Vec<String>)
    ensures
        paths_view(r@) == spec_gitignore_patterns(spec_lines(contents@)),
{
    let chars = str_chars(contents);
    let lines = lines_of(&chars);
    let ghost lv = chunks_view(lines@);
    let mut out: Vec<String> = Vec::new();
    let n = lines.len();
    let mut i: usize = 0;
    proof {
        assert(lv.take(0) =~= Seq::<Seq<char>>::empty());
        assert(paths_view(out@) =~= spec_gitignore_patterns(lv.take(0)));
    }
    while i < n
        invariant
            i <= n,
            n == lines@.len(),
            lv == chunks_view(lines@),
            lv == spec_lines(contents@),
            lv.len() == n,
            paths_view(out@) == spec_gitignore_patterns(lv.take(i as int)),
        decreases n - i,
    {
        assert(lv[i as int] == lines@[i as int]@);
        proof {
            assert(lv.take(i + 1).drop_last() =~= lv.take(i as int));
            assert(lv.take(i + 1).last() == lv[i as int]);
        }
        let line = &lines[i];
        let is_comment = line.len() > 0 && line[0] == '#';
        let trimmed = trim_both_exec(line);
        if !is_comment && trimmed.len() > 0 {
            let mut p: Vec<char> = Vec::new();
            p.push('^');
            crate::strutil::push_all(&mut p, &trimmed);
            p.push('$');
            let ghost before = out@;
            let pv = chars_to_string(&p);
            out.push(pv);
            proof {
                lemma_paths_view_push(before, out@[before.len() as int]);
                assert(out@[before.len() as int]@ =~= seq!['^'] + trim_both(lv[i as int])
                    + seq!['$']);
                assert(paths_view(out@) =~= spec_gitignore_patterns(lv.take(i + 1)));
            }
        } else {
            proof {
                assert(paths_view(out@) =~= spec_gitignore_patterns(lv.take(i + 1)));
            }
        }
        i = i + 1;
    }
    proof {
        assert(lv.take(n as int) =~= lv);
    }
    out
}

} // verus!
