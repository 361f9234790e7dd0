//! File-editing tool logic: the argument shapes the dispatcher fills, the
//! SEARCH/REPLACE block parser, and the pure text transformations behind the
//! write, read, edit and multi-edit tools. Reading and writing the files
//! themselves is input/output and stays outside the library; the functions
//! here take the file's text in and hand the new text and the report out.

use vstd::prelude::*;
use vstd::string::StrSliceExecFns;
use vstd::string::StringSliceAdditionalSpecFns;

use crate::strutil::{
    chars_to_string, chunks_view, dec_of, find_first, find_sub, lemma_chunks_view_push,
    lemma_find_from_bounds, lines_of, push_all, push_dec_u128, push_dec_u64, push_str_chars,
    slice_range, spec_lines, str_chars,
};

verus! {

/// Arguments of the write tool.
pub struct WriteArgs {
    pub path: String,
    pub content: String,
    pub append: bool,
}

/// Arguments of the read tool.
pub struct ReadArgs {
    pub path: String,
    pub show_line_numbers: Option<bool>,
    pub offset: Option<usize>,
    pub limit: Option<usize>,
}

/// Arguments of the single-edit tool.
pub struct EditArgs {
    pub path: String,
    pub old_string: String,
    pub new_string: String,
}

/// Arguments of the multi-edit tool.
pub struct MultiEditArgs {
    pub path: String,
    pub edits: Vec<EditOperation>,
}

/// One replacement of the multi-edit tool.
pub struct EditOperation {
    pub old_string: String,
    pub new_string: String,
}

/// One SEARCH/REPLACE block of the search-replace tool's input.
#[derive(Debug)]
pub struct SearchReplaceBlock {
    pub search: String,
    pub replace: String,
    pub raw_block: String,
}

/// Mathematical image of a `SearchReplaceBlock`.
pub ghost struct BlockV {
    pub search: Seq<char>,
    pub replace: Seq<char>,
    pub raw_block: Seq<char>,
}

impl View for SearchReplaceBlock {
    type V = BlockV;

    open spec fn view(&self) -> BlockV {
        BlockV { search: self.search@, replace: self.replace@, raw_block: self.raw_block@ }
    }
}

/// The images of a block vector.
pub open spec fn blocks_view(s: Seq<SearchReplaceBlock>) -> Seq<BlockV> {
    s.map_values(|b: SearchReplaceBlock| b@)
}

/// Taking images commutes with appending one block.
proof fn lemma_blocks_view_push(s: Seq<SearchReplaceBlock>, x: SearchReplaceBlock)
    ensures
        blocks_view(s.push(x)) == blocks_view(s).push(x@),
{
    assert forall|k: int| 0 <= k < s.len() + 1 implies #[trigger] blocks_view(s.push(x))[k]
        == blocks_view(s).push(x@)[k] by {
        if k < s.len() {
            assert(s.push(x)[k] == s[k]);
        } else {
            assert(s.push(x)[k] == x);
        }
    }
    assert(blocks_view(s.push(x)) =~= blocks_view(s).push(x@));
}

/// The text with leading newlines removed.
pub open spec fn trim_lead_newlines(s: Seq<char>) -> Seq<char>
    decreases s.len(),
{
    if s.len() > 0 && s[0] == '\n' {
        trim_lead_newlines(s.drop_first())
    } else {
        s
    }
}

fn trim_nl(v: &Vec<char>) -> (r: Vec<char>)
    ensures
        r@ == trim_lead_newlines(v@),
{
    let n = v.len();
    let mut j: usize = 0;
    proof {
        assert(v@.skip(0) =~= v@);
    }
    while j < n && v[j] == '\n'
        invariant
            j <= n,
            n == v@.len(),
            trim_lead_newlines(v@) == trim_lead_newlines(v@.skip(j as int)),
        decreases n - j,
    {
        proof {
            assert(v@.skip(j as int)[0] == '\n');
            assert(v@.skip(j as int).drop_first() =~= v@.skip(j + 1));
        }
        j = j + 1;
    }
    proof {
        if j < n {
            assert(v@.skip(j as int)[0] != '\n');
        }
        assert(trim_lead_newlines(v@.skip(j as int)) == v@.skip(j as int));
    }
    slice_range(v, j, n)
}

/// A block as the tool echoes it back, marker lines included.
pub open spec fn spec_raw_block(search: Seq<char>, replace: Seq<char>) -> Seq<char> {
    "<<<<<<< SEARCH\n"@ + search + "=======\n"@ + replace + ">>>>>>> REPLACE\n"@
}

/// The blocks found in the remaining input: each is bounded by a SEARCH
/// marker, a separator and a REPLACE marker, with leading newlines of the
/// two texts removed; a marker out of place is an error.
pub open spec fn spec_blocks_rec(rem: Seq<char>) -> Result<Seq<BlockV>, Seq<char>>
    decreases rem.len(),
    via spec_blocks_rec_dec
{
    match find_first(rem, "<<<<<<< SEARCH"@) {
        None => Ok(Seq::empty()),
        Some(start) => {
            let after = rem.skip(start + "<<<<<<< SEARCH"@.len() as int);
            match find_first(after, "======="@) {
                None => Err("Missing ======= separator"@),
                Some(sep) => match find_first(after, ">>>>>>> REPLACE"@) {
                    None => Err("Missing >>>>>>> REPLACE"@),
                    Some(endp) => {
                        if endp < sep + "======="@.len() {
                            Err("Missing ======= separator"@)
                        } else {
                            let search = trim_lead_newlines(after.take(sep));
                            let replace = trim_lead_newlines(
                                after.subrange(sep + "======="@.len() as int, endp),
                            );
                            match spec_blocks_rec(
                                after.skip(endp + ">>>>>>> REPLACE"@.len() as int),
                            ) {
                                Err(e) => Err(e),
                                Ok(bs) => Ok(
                                    seq![
                                        BlockV {
                                            search,
                                            replace,
                                            raw_block: spec_raw_block(search, replace),
                                        },
                                    ] + bs,
                                ),
                            }
                        }
                    },
                },
            }
        },
    }
}

#[via_fn]
proof fn spec_blocks_rec_dec(rem: Seq<char>) {
    reveal_strlit("<<<<<<< SEARCH");
    reveal_strlit("=======");
    reveal_strlit(">>>>>>> REPLACE");
    if let Some(start) = find_first(rem, "<<<<<<< SEARCH"@) {
        lemma_find_from_bounds(rem, "<<<<<<< SEARCH"@, 0);
        let after = rem.skip(start + "<<<<<<< SEARCH"@.len() as int);
        if find_first(after, "======="@) is Some {
            if find_first(after, ">>>>>>> REPLACE"@) is Some {
                lemma_find_from_bounds(after, ">>>>>>> REPLACE"@, 0);
            }
        }
    }
}

/// What the block parser yields for a whole input: its blocks, or an error —
/// also when no block was found at all.
pub open spec fn spec_parse_blocks(content: Seq<char>) -> Result<Seq<BlockV>, Seq<char>> {
    match spec_blocks_rec(content) {
        Err(e) => Err(e),
        Ok(bs) => if bs.len() == 0 {
            Err("No SEARCH/REPLACE blocks found"@)
        } else {
            Ok(bs)
        },
    }
}

/// Blocks already parsed, joined in front of what the rest of the input
/// yields.
pub open spec fn with_prefix(pre: Seq<BlockV>, r: Result<Seq<BlockV>, Seq<char>>) -> Result<
    Seq<BlockV>,
    Seq<char>,
> {
    match r {
        Ok(bs) => Ok(pre + bs),
        Err(e) => Err(e),
    }
}


/// One rendered line of the read tool's output, numbered when asked.
pub open spec fn render_one(l: Seq<char>, show: bool, idx: int) -> Seq<char> {
    if show {
        dec_of((idx + 1) as nat) + ": "@ + l + seq!['\n']
    } else {
        l + seq!['\n']
    }
}

/// The rendered window of lines `lo` to `hi`.
pub open spec fn render_range(ls: Seq<Seq<char>>, show: bool, lo: int, hi: int) -> Seq<char>
    decreases hi - lo,
{
    if lo < 0 || hi > ls.len() || lo >= hi {
        Seq::empty()
    } else {
        render_range(ls, show, lo, hi - 1) + render_one(ls[hi - 1], show, hi - 1)
    }
}

/// The read tool's output for a file's text: a window of its lines selected
/// by offset and limit, capped at a thousand lines, numbered when asked; an
/// offset of zero is refused.
pub open spec fn spec_read_file(
    content: Seq<char>,
    show_line_numbers: Option<bool>,
    offset: Option<usize>,
    limit: Option<usize>,
) -> Result<Seq<char>, Seq<char>> {
    let start = match offset {
        Some(v) => v as int,
        None => 1,
    };
    if start == 0 {
        Err("line_start must be >= 1"@)
    } else {
        let show = match show_line_numbers {
            Some(b) => b,
            None => false,
        };
        let lim = match limit {
            Some(v) => v as int,
            None => usize::MAX as int,
        };
        let ls = spec_lines(content);
        let cap = if start + lim > usize::MAX as int {
            usize::MAX as int
        } else {
            start + lim
        };
        let end1 = if cap < ls.len() as int {
            cap
        } else {
            ls.len() as int
        };
        let end_idx = if end1 < 1000 {
            end1
        } else {
            1000
        };
        Ok(render_range(ls, show, start - 1, end_idx))
    }
}

/// The file tools' pure text operations.
pub struct FileLibrary {}

/// A finished edit: the new text of the file, and the report handed back to
/// the model.
#[derive(Debug)]
pub struct EditOutcome {
    pub content: String,
    pub report: String,
}

impl FileLibrary {
    /// Parses SEARCH/REPLACE blocks out of the tool input.
    pub fn parse_blocks(content: &str) -> (r: Result<Vec<SearchReplaceBlock>, String>)
        ensures
            match spec_parse_blocks(content@) {
                Ok(bs) => r matches Ok(v) && blocks_view(v@) == bs,
                Err(e) => r matches Err(msg) && msg@ == e,
            },
    {
        let pat_search = str_chars("<<<<<<< SEARCH");
        let pat_sep = str_chars("=======");
        let pat_rep = str_chars(">>>>>>> REPLACE");
        let mut blocks: Vec<SearchReplaceBlock> = Vec::new();
        let all = str_chars(content);
        let mut rem: Vec<char> = all;
        proof {
            assert(blocks_view(blocks@) =~= Seq::<BlockV>::empty());
            assert(with_prefix(blocks_view(blocks@), spec_blocks_rec(rem@)) == spec_blocks_rec(
                content@,
            )) by {
                match spec_blocks_rec(rem@) {
                    Ok(bs) => {
                        assert(Seq::<BlockV>::empty() + bs =~= bs);
                    },
                    Err(_) => {},
                }
            }
        }
        loop
            invariant
                pat_search@ == "<<<<<<< SEARCH"@,
                pat_sep@ == "======="@,
                pat_rep@ == ">>>>>>> REPLACE"@,
                with_prefix(blocks_view(blocks@), spec_blocks_rec(rem@)) == spec_blocks_rec(
                    content@,
                ),
            ensures
                with_prefix(blocks_view(blocks@), spec_blocks_rec(rem@)) == spec_blocks_rec(
                    content@,
                ),
                find_first(rem@, "<<<<<<< SEARCH"@) is None,
            decreases rem@.len(),
        {
            let start = match find_sub(&rem, &pat_search) {
                Some(s) => s,
                None => {
                    break ;
                },
            };
            proof {
                reveal_strlit("<<<<<<< SEARCH");
                reveal_strlit("=======");
                reveal_strlit(">>>>>>> REPLACE");
                lemma_find_from_bounds(rem@, pat_search@, 0);
            }
            let rl = rem.len();
            let after = slice_range(&rem, start + pat_search.len(), rl);
            let sep = match find_sub(&after, &pat_sep) {
                Some(s) => s,
                None => {
                    return Err("Missing ======= separator".to_owned());
                },
            };
            let endp = match find_sub(&after, &pat_rep) {
                Some(s) => s,
                None => {
                    return Err("Missing >>>>>>> REPLACE".to_owned());
                },
            };
            proof {
                lemma_find_from_bounds(after@, pat_sep@, 0);
                lemma_find_from_bounds(after@, pat_rep@, 0);
            }
            if endp < sep + pat_sep.len() {
                return Err("Missing ======= separator".to_owned());
            }
            let search_raw = slice_range(&after, 0, sep);
            let search = trim_nl(&search_raw);
            let replace_raw = slice_range(&after, sep + pat_sep.len(), endp);
            let replace = trim_nl(&replace_raw);
            let mut raw: Vec<char> = Vec::new();
            push_str_chars(&mut raw, "<<<<<<< SEARCH\n");
            push_all(&mut raw, &search);
            push_str_chars(&mut raw, "=======\n");
            push_all(&mut raw, &replace);
            push_str_chars(&mut raw, ">>>>>>> REPLACE\n");
            let block = SearchReplaceBlock {
                search: chars_to_string(&search),
                replace: chars_to_string(&replace),
                raw_block: chars_to_string(&raw),
            };
            let ghost old_rem = rem@;
            let ghost prev_blocks = blocks@;
            let al = after.len();
            let new_rem = slice_range(&after, endp + pat_rep.len(), al);
            blocks.push(block);
            rem = new_rem;
            proof {
                lemma_blocks_view_push(prev_blocks, blocks@[prev_blocks.len() as int]);
                let b = blocks@.last()@;
                assert(b.search == trim_lead_newlines(after@.take(sep as int)));
                assert(b.replace == trim_lead_newlines(
                    after@.subrange(sep + "======="@.len() as int, endp as int),
                ));
                assert(b.raw_block =~= spec_raw_block(b.search, b.replace));
                assert(spec_blocks_rec(old_rem) == (match spec_blocks_rec(rem@) {
                    Err(e) => Err(e),
                    Ok(bs) => Ok(seq![b] + bs),
                }));
                match spec_blocks_rec(rem@) {
                    Ok(bs) => {
                        assert(blocks_view(prev_blocks) + (seq![b] + bs) =~= blocks_view(
                            blocks@,
                        ) + bs);
                    },
                    Err(_) => {},
                }
            }
        }
        if blocks.len() == 0 {
            proof {
                assert(blocks_view(blocks@).len() == 0);
            }
            return Err("No SEARCH/REPLACE blocks found".to_owned());
        }
        proof {
            match spec_blocks_rec(content@) {
                Ok(bs) => {
                    assert(blocks_view(blocks@) + Seq::<BlockV>::empty() =~= blocks_view(
                        blocks@,
                    ));
                },
                Err(_) => {},
            }
        }
        Ok(blocks)
    }
}


/// Whether a character counts as trailing blank space for the report.
pub open spec fn is_ws(c: char) -> bool {
    c == ' ' || c == '\t' || c == '\n' || c == '\r' || c == '\u{b}' || c == '\u{c}'
}

/// The text with trailing blank space removed.
pub open spec fn trim_trailing_ws(s: Seq<char>) -> Seq<char>
    decreases s.len(),
{
    if s.len() > 0 && is_ws(s.last()) {
        trim_trailing_ws(s.drop_last())
    } else {
        s
    }
}

pub(crate) fn is_ws_char(c: char) -> (r: bool)
    ensures
        r == is_ws(c),
{
    c == ' ' || c == '\t' || c == '\n' || c == '\r' || c == '\u{b}' || c == '\u{c}'
}

fn trim_end_ws(v: &Vec<char>) -> (r: Vec<char>)
    ensures
        r@ == trim_trailing_ws(v@),
{
    let mut end = v.len();
    proof {
        assert(v@.take(v@.len() as int) =~= v@);
    }
    while end > 0 && is_ws_char(v[end - 1])
        invariant
            end <= v@.len(),
            trim_trailing_ws(v@) == trim_trailing_ws(v@.take(end as int)),
        decreases end,
    {
        proof {
            assert(v@.take(end as int).last() == v@[end - 1]);
            assert(v@.take(end as int).drop_last() =~= v@.take(end - 1));
        }
        end = end - 1;
    }
    proof {
        if end > 0 {
            assert(v@.take(end as int).last() == v@[end - 1]);
        }
        assert(trim_trailing_ws(v@.take(end as int)) == v@.take(end as int));
    }
    slice_range(v, 0, end)
}

/// The warning recorded when a block changes the line count.
pub open spec fn spec_warning(from: nat, to: nat) -> Seq<char> {
    "Line count changed from "@ + dec_of(from) + " to "@ + dec_of(to)
}

/// The blocks from `i` on, applied in order: each block's search text must
/// occur, its first occurrence is replaced, the search text's line count is
/// added up, and a block that changes the line count leaves a warning.
pub open spec fn spec_apply_from(content: Seq<char>, bs: Seq<BlockV>, i: int) -> Result<
    (Seq<char>, int, Seq<Seq<char>>),
    Seq<char>,
>
    decreases bs.len() - i,
{
    if i < 0 || i >= bs.len() {
        Ok((content, 0, Seq::empty()))
    } else {
        match find_first(content, bs[i].search) {
            None => Err("SEARCH block not found in file:\n"@ + bs[i].search),
            Some(pos) => {
                let sl = spec_lines(bs[i].search).len() as int;
                let rl = spec_lines(bs[i].replace).len() as int;
                let warn: Seq<Seq<char>> = if sl != rl {
                    seq![spec_warning(sl as nat, rl as nat)]
                } else {
                    Seq::empty()
                };
                let newc = content.take(pos) + bs[i].replace + content.skip(
                    pos + bs[i].search.len() as int,
                );
                match spec_apply_from(newc, bs, i + 1) {
                    Err(e) => Err(e),
                    Ok((fc, lc, ws)) => Ok((fc, lc + sl, warn + ws)),
                }
            },
        }
    }
}

/// Counts and warnings already accumulated, joined in front of what the
/// remaining blocks yield.
pub open spec fn with_apply_prefix(
    lc0: int,
    ws0: Seq<Seq<char>>,
    r: Result<(Seq<char>, int, Seq<Seq<char>>), Seq<char>>,
) -> Result<(Seq<char>, int, Seq<Seq<char>>), Seq<char>> {
    match r {
        Ok((fc, lc, ws)) => Ok((fc, lc0 + lc, ws0 + ws)),
        Err(e) => Err(e),
    }
}

/// Warnings joined for the report.
pub open spec fn spec_join_warnings(ws: Seq<Seq<char>>) -> Seq<char>
    decreases ws.len(),
{
    if ws.len() == 0 {
        Seq::empty()
    } else if ws.len() == 1 {
        ws[0]
    } else {
        spec_join_warnings(ws.drop_last()) + "; "@ + ws.last()
    }
}

/// The report of a finished search-replace run.
pub open spec fn spec_apply_report(
    path: Seq<char>,
    nblocks: nat,
    lc: nat,
    original: Seq<char>,
    ws: Seq<Seq<char>>,
) -> Seq<char> {
    "file: "@ + path + "\nblocks_applied: "@ + dec_of(nblocks) + "\nlines_changed: "@ + dec_of(
        lc,
    ) + "\ncontent:\n"@ + trim_trailing_ws(original) + "\nwarnings: "@ + (if ws.len() == 0 {
        "none"@
    } else {
        spec_join_warnings(ws)
    }) + "\n"@
}

/// The first occurrence of `old` in `content` replaced by `new`, when `old`
/// occurs at all.
pub open spec fn spec_replace_first(
    content: Seq<char>,
    old_text: Seq<char>,
    new_text: Seq<char>,
) -> Option<Seq<char>> {
    match find_first(content, old_text) {
        None => None,
        Some(pos) => Some(
            content.take(pos) + new_text + content.skip(pos + old_text.len() as int),
        ),
    }
}

pub(crate) fn replace_first(content: &Vec<char>, old_text: &Vec<char>, new_text: &Vec<char>) -> (r: Option<
    Vec<char>,
>)
    ensures
        match spec_replace_first(content@, old_text@, new_text@) {
            Some(c) => r matches Some(v) && v@ == c,
            None => r is None,
        },
{
    let pos = match find_sub(content, old_text) {
        Some(p) => p,
        None => {
            return None;
        },
    };
    proof {
        lemma_find_from_bounds(content@, old_text@, 0);
    }
    let cl = content.len();
    let mut out = slice_range(content, 0, pos);
    push_all(&mut out, new_text);
    let tail = slice_range(content, pos + old_text.len(), cl);
    push_all(&mut out, &tail);
    Some(out)
}

/// The edits from `i` on, applied in order; a missing search string fails
/// the whole run.
pub open spec fn spec_apply_edits(
    content: Seq<char>,
    es: Seq<(Seq<char>, Seq<char>)>,
    i: int,
) -> Result<Seq<char>, Seq<char>>
    decreases es.len() - i,
{
    if i < 0 || i >= es.len() {
        Ok(content)
    } else {
        match spec_replace_first(content, es[i].0, es[i].1) {
            None => Err("Edit failed: string '"@ + es[i].0 + "' not found"@),
            Some(newc) => spec_apply_edits(newc, es, i + 1),
        }
    }
}

/// The searched and replacement texts of the edit operations.
pub open spec fn edits_view(es: Seq<EditOperation>) -> Seq<(Seq<char>, Seq<char>)> {
    es.map_values(|e: EditOperation| (e.old_string@, e.new_string@))
}

pub(crate) fn not_found_message(old_text: &Vec<char>) -> (r: String)
    ensures
        r@ == "Edit failed: string '"@ + old_text@ + "' not found"@,
{
    let mut m: Vec<char> = Vec::new();
    push_str_chars(&mut m, "Edit failed: string '");
    push_all(&mut m, old_text);
    push_str_chars(&mut m, "' not found");
    chars_to_string(&m)
}

impl FileLibrary {
    /// Applies parsed SEARCH/REPLACE blocks to the file's text: the new text
    /// and the run's report, or the error for a block whose search text the
    /// file does not hold.
    pub fn apply_blocks(
        file_path: &str,
        file_content: &str,
        blocks: &Vec<SearchReplaceBlock>,
        original_content: &str,
    ) -> (r: Result<EditOutcome, String>)
        ensures
            match spec_apply_from(file_content@, blocks_view(blocks@), 0) {
                Ok((fc, lc, ws)) => r matches Ok(o) && o.content@ == fc && o.report@
                    == spec_apply_report(
                    file_path@,
                    blocks@.len() as nat,
                    lc as nat,
                    original_content@,
                    ws,
                ),
                Err(e) => r matches Err(msg) && msg@ == e,
            },
    {
        let ghost bv = blocks_view(blocks@);
        let mut content: Vec<char> = str_chars(file_content);
        let mut lc: u128 = 0;
        let mut warns: Vec<Vec<char>> = Vec::new();
        let n = blocks.len();
        let mut i: usize = 0;
        proof {
            assert(chunks_view(warns@) =~= Seq::<Seq<char>>::empty());
            assert(with_apply_prefix(0, chunks_view(warns@), spec_apply_from(content@, bv, 0))
                == spec_apply_from(file_content@, bv, 0)) by {
                match spec_apply_from(content@, bv, 0) {
                    Ok((fc, l, ws)) => {
                        assert(Seq::<Seq<char>>::empty() + ws =~= ws);
                    },
                    Err(_) => {},
                }
            }
        }
        while i < n
            invariant
                i <= n,
                n == blocks@.len(),
                bv == blocks_view(blocks@),
                bv.len() == n,
                lc as int <= i as int * 0x1_0000_0000_0000_0000,
                with_apply_prefix(
                    lc as int,
                    chunks_view(warns@),
                    spec_apply_from(content@, bv, i as int),
                ) == spec_apply_from(file_content@, bv, 0),
            decreases n - i,
        {
            assert(bv[i as int] == blocks@[i as int]@);
            let search = str_chars(blocks[i].search.as_str());
            let replace = str_chars(blocks[i].replace.as_str());
            let newc = match replace_first(&content, &search, &replace) {
                Some(c) => c,
                None => {
                    return Err(not_found_message_block(&search));
                },
            };
            let search_lines = lines_of(&search).len();
            let replace_lines = lines_of(&replace).len();
            let ghost prev_warns = warns@;
            let ghost prev_lc = lc as int;
            if search_lines != replace_lines {
                let mut w: Vec<char> = Vec::new();
                push_str_chars(&mut w, "Line count changed from ");
                push_dec_u64(&mut w, search_lines as u64);
                push_str_chars(&mut w, " to ");
                push_dec_u64(&mut w, replace_lines as u64);
                warns.push(w);
                proof {
                    lemma_chunks_view_push(prev_warns, warns@[prev_warns.len() as int]);
                }
            }
            proof {
                assert(lc as int + search_lines as int <= (i as int + 1)
                    * 0x1_0000_0000_0000_0000) by (nonlinear_arith)
                    requires
                        lc as int <= i as int * 0x1_0000_0000_0000_0000,
                        search_lines as int <= 0xFFFF_FFFF_FFFF_FFFF,
                        i as int >= 0,
                ;
                assert(i as int + 1 <= 0xFFFF_FFFF_FFFF_FFFF);
                assert((i as int + 1) * 0x1_0000_0000_0000_0000 <= u128::MAX) by (
                nonlinear_arith)
                    requires
                        i as int + 1 <= 0xFFFF_FFFF_FFFF_FFFF,
                ;
            }
            lc = lc + search_lines as u128;
            let ghost old_content = content@;
            content = newc;
            proof {
                let sl = spec_lines(bv[i as int].search).len() as int;
                let warn: Seq<Seq<char>> = if sl != spec_lines(bv[i as int].replace).len() as int {
                    seq![spec_warning(sl as nat, spec_lines(bv[i as int].replace).len() as nat)]
                } else {
                    Seq::empty()
                };
                assert(chunks_view(warns@) =~= prev_warns.map_values(|v: Vec<char>| v@)
                    + warn);
                match spec_apply_from(content@, bv, i + 1) {
                    Ok((fc, l, ws)) => {
                        assert((chunks_view(prev_warns) + warn) + ws =~= chunks_view(
                            prev_warns,
                        ) + (warn + ws));
                    },
                    Err(_) => {},
                }
            }
            i = i + 1;
        }
        proof {
            match spec_apply_from(content@, bv, n as int) {
                Ok((fc, l, ws)) => {
                    assert(chunks_view(warns@) + Seq::<Seq<char>>::empty() =~= chunks_view(
                        warns@,
                    ));
                },
                Err(_) => {},
            }
        }
        // Build the report.
        let mut rep: Vec<char> = Vec::new();
        push_str_chars(&mut rep, "file: ");
        push_str_chars(&mut rep, file_path);
        push_str_chars(&mut rep, "\nblocks_applied: ");
        push_dec_u64(&mut rep, n as u64);
        push_str_chars(&mut rep, "\nlines_changed: ");
        push_dec_u128(&mut rep, lc);
        push_str_chars(&mut rep, "\ncontent:\n");
        let orig = str_chars(original_content);
        let trimmed = trim_end_ws(&orig);
        push_all(&mut rep, &trimmed);
        push_str_chars(&mut rep, "\nwarnings: ");
        if warns.len() == 0 {
            push_str_chars(&mut rep, "none");
        } else {
            let ghost wv = chunks_view(warns@);
            let m = warns.len();
            let mut j: usize = 0;
            let ghost head = rep@;
            while j < m
                invariant
                    j <= m,
                    m == warns@.len(),
                    wv == chunks_view(warns@),
                    wv.len() == m,
                    j == 0 ==> rep@ == head,
                    j > 0 ==> rep@ == head + spec_join_warnings(wv.take(j as int)),
                decreases m - j,
            {
                if j > 0 {
                    push_str_chars(&mut rep, "; ");
                }
                assert(wv[j as int] == warns@[j as int]@);
                push_all(&mut rep, &warns[j]);
                proof {
                    assert(wv.take(j + 1).drop_last() =~= wv.take(j as int));
                    assert(wv.take(j + 1).last() == wv[j as int]);
                    if j == 0 {
                        assert(rep@ =~= head + spec_join_warnings(wv.take(1)));
                    } else {
                        assert(rep@ =~= head + spec_join_warnings(wv.take(j + 1)));
                    }
                }
                j = j + 1;
            }
            proof {
                assert(wv.take(m as int) =~= wv);
            }
        }
        push_str_chars(&mut rep, "\n");
        proof {
            assert(rep@ =~= spec_apply_report(
                file_path@,
                n as nat,
                lc as nat,
                original_content@,
                chunks_view(warns@),
            ));
        }
        Ok(EditOutcome { content: chars_to_string(&content), report: chars_to_string(&rep) })
    }

    /// Applies the multi-edit tool's replacements in order, all or nothing:
    /// the new text with its report, or the error for the first replacement
    /// whose search string the text does not hold.
    pub fn multiedit_content(content: &str, edits: &Vec<EditOperation>) -> (r: Result<
        EditOutcome,
        String,
    >)
        ensures
            match spec_apply_edits(content@, edits_view(edits@), 0) {
                Ok(fc) => r matches Ok(o) && o.content@ == fc && o.report@ == "Applied "@
                    + dec_of(edits@.len() as nat) + " edits successfully"@,
                Err(e) => r matches Err(msg) && msg@ == e,
            },
    {
        let ghost ev = edits_view(edits@);
        let mut cur: Vec<char> = str_chars(content);
        let n = edits.len();
        let mut i: usize = 0;
        while i < n
            invariant
                i <= n,
                n == edits@.len(),
                ev == edits_view(edits@),
                ev.len() == n,
                spec_apply_edits(cur@, ev, i as int) == spec_apply_edits(content@, ev, 0),
            decreases n - i,
        {
            assert(ev[i as int] == (edits@[i as int].old_string@, edits@[i as int].new_string@));
            let old_text = str_chars(edits[i].old_string.as_str());
            let new_text = str_chars(edits[i].new_string.as_str());
            cur = match replace_first(&cur, &old_text, &new_text) {
                Some(c) => c,
                None => {
                    return Err(not_found_message(&old_text));
                },
            };
            i = i + 1;
        }
        let mut rep: Vec<char> = Vec::new();
        push_str_chars(&mut rep, "Applied ");
        push_dec_u64(&mut rep, n as u64);
        push_str_chars(&mut rep, " edits successfully");
        Ok(EditOutcome { content: chars_to_string(&cur), report: chars_to_string(&rep) })
    }

    /// Applies the single-edit tool's replacement: the new text, or the
    /// error when the search string does not occur.
    pub fn edit_file_content(content: &str, old_string: &str, new_string: &str) -> (r: Result<
        EditOutcome,
        String,
    >)
        ensures
            match spec_replace_first(content@, old_string@, new_string@) {
                Some(fc) => r matches Ok(o) && o.content@ == fc && o.report@
                    == "Edit applied successfully"@,
                None => r matches Err(msg) && msg@ == "Edit failed: string '"@ + old_string@
                    + "' not found"@,
            },
    {
        let c = str_chars(content);
        let old_text = str_chars(old_string);
        let new_text = str_chars(new_string);
        match replace_first(&c, &old_text, &new_text) {
            Some(v) => Ok(
                EditOutcome {
                    content: chars_to_string(&v),
                    report: "Edit applied successfully".to_owned(),
                },
            ),
            None => Err(not_found_message(&old_text)),
        }
    }


    /// Renders the read tool's output for a file's text.
    pub fn read_file_content(
        content: &str,
        show_line_numbers: Option<bool>,
        offset: Option<usize>,
        limit: Option<usize>,
    ) -> (r: Result<String, String>)
        ensures
            match spec_read_file(content@, show_line_numbers, offset, limit) {
                Ok(t) => r matches Ok(s) && s@ == t,
                Err(e) => r matches Err(m) && m@ == e,
            },
    {
        let start: usize = match offset {
            Some(v) => v,
            None => 1,
        };
        if start == 0 {
            return Err("line_start must be >= 1".to_owned());
        }
        let show = match show_line_numbers {
            Some(b) => b,
            None => false,
        };
        let lim: usize = match limit {
            Some(v) => v,
            None => usize::MAX,
        };
        let chars = str_chars(content);
        let lines = lines_of(&chars);
        let ghost lsv = spec_lines(content@);
        let nl = lines.len();
        let cap: usize = if start > usize::MAX - lim {
            usize::MAX
        } else {
            start + lim
        };
        let end1: usize = if cap < nl {
            cap
        } else {
            nl
        };
        let end_idx: usize = if end1 < 1000 {
            end1
        } else {
            1000
        };
        let mut out: Vec<char> = Vec::new();
        let mut j: usize = start - 1;
        proof {
            assert(out@ =~= render_range(lsv, show, start as int - 1, j as int));
        }
        while j < end_idx
            invariant
                start >= 1,
                j >= start - 1,
                j <= if end_idx >= start - 1 { end_idx as int } else { start - 1 },
                end_idx <= nl,
                end_idx <= 1000,
                nl == lines@.len(),
                lsv == spec_lines(content@),
                chunks_view(lines@) == lsv,
                lsv.len() == nl,
                out@ == render_range(lsv, show, start as int - 1, j as int),
            decreases end_idx - j,
        {
            assert(lsv[j as int] == lines@[j as int]@);
            if show {
                push_dec_u64(&mut out, (j + 1) as u64);
                push_str_chars(&mut out, ": ");
            }
            push_all(&mut out, &lines[j]);
            out.push('\n');
            proof {
                assert(out@ =~= render_range(lsv, show, start as int - 1, j + 1));
            }
            j = j + 1;
        }
        Ok(chars_to_string(&out))
    }

    /// The report the write tool hands back: how many bytes were written.
    pub fn write_report(content: &str) -> (r: String)
        ensures
            r@ == dec_of((content.spec_bytes().len() as usize) as nat) + " bytes written"@,
    {
        let mut rep: Vec<char> = Vec::new();
        push_dec_u64(&mut rep, content.len() as u64);
        push_str_chars(&mut rep, " bytes written");
        proof {
            assert(rep@ =~= dec_of((content.spec_bytes().len() as usize) as nat)
                + " bytes written"@);
        }
        chars_to_string(&rep)
    }
}

/// The message for a block whose search text the file does not hold.
fn not_found_message_block(search: &Vec<char>) -> (r: String)
    ensures
        r@ == "SEARCH block not found in file:\n"@ + search@,
{
    let mut m: Vec<char> = Vec::new();
    push_str_chars(&mut m, "SEARCH block not found in file:\n");
    push_all(&mut m, search);
    chars_to_string(&m)
}

} // verus!
