//! The plain file tools: their argument shapes and the pure text
//! transformations behind reading and multi-editing. The filesystem side
//! stays outside the library.

use vstd::prelude::*;

use crate::strutil::{
    chars_to_string, chunks_view, lines_of, push_all, push_dec_u64, push_str_chars, spec_lines,
    str_chars,
};
use crate::tools::files::{not_found_message, render_range, replace_first, spec_apply_edits};

verus! {

/// Arguments of the write tool.
pub struct WriteArgs {
    pub path: String,
    pub content: String,
}

/// Arguments of the read tool.
pub struct ReadArgs {
    pub path: String,
    pub show_line_numbers: Option<bool>,
    pub line_start: Option<usize>,
    pub line_count: Option<usize>,
}

/// Arguments of the multi-edit tool.
pub struct MultiEditArgs {
    pub path: String,
    pub edits: Vec<EditOperation>,
}

/// One replacement of the multi-edit tool.
pub struct EditOperation {
    pub old_string: String,
    pub new_string: String,
}

/// The searched and replacement texts of the edit operations.
pub open spec fn edit_pairs(es: Seq<EditOperation>) -> Seq<(Seq<char>, Seq<char>)> {
    es.map_values(|e: EditOperation| (e.old_string@, e.new_string@))
}

/// The read tool's output for a file's text, in this tool's counting: the
/// window starts at the line named by `line_start` and runs for
/// `line_count` lines past the start index, capped at a thousand.
pub open spec fn spec_read_window(
    content: Seq<char>,
    show_line_numbers: Option<bool>,
    line_start: Option<usize>,
    line_count: Option<usize>,
) -> Result<Seq<char>, Seq<char>> {
    let start = match line_start {
        Some(v) => v as int,
        None => 1,
    };
    if start == 0 {
        Err("line_start must be >= 1"@)
    } else {
        let show = match show_line_numbers {
            Some(b) => b,
            None => false,
        };
        let count = match line_count {
            Some(v) => v as int,
            None => usize::MAX as int,
        };
        let ls = spec_lines(content);
        let cap = if start - 1 + count > usize::MAX as int {
            usize::MAX as int
        } else {
            start - 1 + count
        };
        let end1 = if cap < ls.len() as int {
            cap
        } else {
            ls.len() as int
        };
        let end_idx = if end1 < 1000 {
            end1
        } else {
            1000
        };
        Ok(render_range(ls, show, start - 1, end_idx))
    }
}

/// The plain file tools' pure text operations.
pub struct FileLibrary {}

impl FileLibrary {
    /// Renders the read tool's output for a file's text.
    pub fn read_file_content(
        content: &str,
        show_line_numbers: Option<bool>,
        line_start: Option<usize>,
        line_count: Option<usize>,
    ) -> (r: Result<String, String>)
        ensures
            match spec_read_window(content@, show_line_numbers, line_start, line_count) {
                Ok(t) => r matches Ok(s) && s@ == t,
                Err(e) => r matches Err(m) && m@ == e,
            },
    {
        let start: usize = match line_start {
            Some(v) => v,
            None => 1,
        };
        if start == 0 {
            return Err("line_start must be >= 1".to_owned());
        }
        let show = match show_line_numbers {
            Some(b) => b,
            None => false,
        };
        let count: usize = match line_count {
            Some(v) => v,
            None => usize::MAX,
        };
        let chars = str_chars(content);
        let lines = lines_of(&chars);
        let ghost lsv = spec_lines(content@);
        let nl = lines.len();
        let start_idx = start - 1;
        let cap: usize = if start_idx > usize::MAX - count {
            usize::MAX
        } else {
            start_idx + count
        };
        let end1: usize = if cap < nl {
            cap
        } else {
            nl
        };
        let end_idx: usize = if end1 < 1000 {
            end1
        } else {
            1000
        };
        let mut out: Vec<char> = Vec::new();
        let mut j: usize = start_idx;
        proof {
            assert(out@ =~= render_range(lsv, show, start_idx as int, j as int));
        }
        while j < end_idx
            invariant
                j >= start_idx,
                j <= if end_idx >= start_idx { end_idx as int } else { start_idx as int },
                end_idx <= nl,
                end_idx <= 1000,
                nl == lines@.len(),
                lsv == spec_lines(content@),
                chunks_view(lines@) == lsv,
                lsv.len() == nl,
                out@ == render_range(lsv, show, start_idx as int, j as int),
            decreases end_idx - j,
        {
            assert(lsv[j as int] == lines@[j as int]@);
            if show {
                push_dec_u64(&mut out, (j + 1) as u64);
                push_str_chars(&mut out, ": ");
            }
            push_all(&mut out, &lines[j]);
            out.push('\n');
            proof {
                assert(out@ =~= render_range(lsv, show, start_idx as int, j + 1));
            }
            j = j + 1;
        }
        Ok(chars_to_string(&out))
    }

    /// Applies the multi-edit tool's replacements in order, all or nothing.
    pub fn multiedit_content(content: &str, edits: &Vec<EditOperation>) -> (r: Result<
        String,
        String,
    >)
        ensures
            match spec_apply_edits(content@, edit_pairs(edits@), 0) {
                Ok(fc) => r matches Ok(s) && s@ == fc,
                Err(e) => r matches Err(msg) && msg@ == e,
            },
    {
        let ghost ev = edit_pairs(edits@);
        let mut cur: Vec<char> = str_chars(content);
        let n = edits.len();
        let mut i: usize = 0;
        while i < n
            invariant
                i <= n,
                n == edits@.len(),
                ev == edit_pairs(edits@),
                ev.len() == n,
                spec_apply_edits(cur@, ev, i as int) == spec_apply_edits(content@, ev, 0),
            decreases n - i,
        {
            assert(ev[i as int] == (edits@[i as int].old_string@, edits@[i as int].new_string@));
            let old_text = str_chars(edits[i].old_string.as_str());
            let new_text = str_chars(edits[i].new_string.as_str());
            cur = match replace_first(&cur, &old_text, &new_text) {
                Some(c) => c,
                None => {
                    return Err(not_found_message(&old_text));
                },
            };
            i = i + 1;
        }
        Ok(chars_to_string(&cur))
    }
}

} // verus!
