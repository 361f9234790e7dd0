//! Character-level utilities shared by the rest of the crate: conversions
//! between `&str`, `String` and `Vec<char>`, decimal rendering and parsing,
//! and substring search.

use vstd::prelude::*;
use vstd::string::StrSliceExecFns;
use vstd::string::StringExecFns;

verus! {

/// Relies on `String::push`: appends the given character to the end of the string.
#[verifier::external_body]
pub fn push_char(s: &mut String, c: char)
    ensures
        final(s)@ == old(s)@.push(c),
{
    s.push(c);
}

/// The characters of a string slice, in order.
pub fn str_chars(s: &str) -> (r: Vec<char>)
    ensures
        r@ == s@,
{
    let n = s.unicode_len();
    let mut r: Vec<char> = Vec::new();
    let mut i: usize = 0;
    while i < n
        invariant
            i <= n,
            n == s@.len(),
            r@ == s@.subrange(0, i as int),
        decreases n - i,
    {
        r.push(s.get_char(i));
        assert(s@.subrange(0, i + 1 as int) =~= s@.subrange(0, i as int).push(s@[i as int]));
        i = i + 1;
    }
    assert(s@.subrange(0, n as int) =~= s@);
    r
}

/// A `String` holding exactly the given characters.
pub fn chars_to_string(v: &Vec<char>) -> (r: String)
    ensures
        r@ == v@,
{
    let mut r = String::new();
    let mut i: usize = 0;
    while i < v.len()
        invariant
            i <= v@.len(),
            r@ == v@.subrange(0, i as int),
        decreases v@.len() - i,
    {
        push_char(&mut r, v[i]);
        assert(v@.subrange(0, i + 1 as int) =~= v@.subrange(0, i as int).push(v@[i as int]));
        i = i + 1;
    }
    assert(v@.subrange(0, v@.len() as int) =~= v@);
    r
}

/// Appends the characters of `s` to `out`.
pub fn push_str_chars(out: &mut Vec<char>, s: &str)
    ensures
        final(out)@ == old(out)@ + s@,
{
    let n = s.unicode_len();
    let mut i: usize = 0;
    while i < n
        invariant
            i <= n,
            n == s@.len(),
            out@ == old(out)@ + s@.subrange(0, i as int),
        decreases n - i,
    {
        out.push(s.get_char(i));
        assert(s@.subrange(0, i + 1 as int) =~= s@.subrange(0, i as int).push(s@[i as int]));
        i = i + 1;
    }
    assert(s@.subrange(0, n as int) =~= s@);
}

/// Appends the contents of `v` to `out`.
pub fn push_all(out: &mut Vec<char>, v: &Vec<char>)
    ensures
        final(out)@ == old(out)@ + v@,
{
    let mut i: usize = 0;
    while i < v.len()
        invariant
            i <= v@.len(),
            out@ == old(out)@ + v@.subrange(0, i as int),
        decreases v@.len() - i,
    {
        out.push(v[i]);
        assert(v@.subrange(0, i + 1 as int) =~= v@.subrange(0, i as int).push(v@[i as int]));
        i = i + 1;
    }
    assert(v@.subrange(0, v@.len() as int) =~= v@);
}

/// Character-by-character string equality.
pub fn str_equal(a: &str, b: &str) -> (r: bool)
    ensures
        r == (a@ == b@),
{
    let na = a.unicode_len();
    let nb = b.unicode_len();
    if na != nb {
        return false;
    }
    let mut i: usize = 0;
    while i < na
        invariant
            i <= na,
            na == a@.len(),
            na == b@.len(),
            forall|j: int| 0 <= j < i ==> a@[j] == b@[j],
        decreases na - i,
    {
        if a.get_char(i) != b.get_char(i) {
            return false;
        }
        i = i + 1;
    }
    assert(a@ =~= b@);
    true
}

/// The decimal digit character for a value below ten.
pub open spec fn dec_digit(d: int) -> char {
    if d == 0 {
        '0'
    } else if d == 1 {
        '1'
    } else if d == 2 {
        '2'
    } else if d == 3 {
        '3'
    } else if d == 4 {
        '4'
    } else if d == 5 {
        '5'
    } else if d == 6 {
        '6'
    } else if d == 7 {
        '7'
    } else if d == 8 {
        '8'
    } else {
        '9'
    }
}

/// Decimal rendering of a natural number, most significant digit first.
pub open spec fn dec_of(n: nat) -> Seq<char>
    decreases n,
{
    if n < 10 {
        seq![dec_digit(n as int)]
    } else {
        dec_of(n / 10).push(dec_digit((n % 10) as int))
    }
}

/// Decimal rendering of an integer, with a leading minus sign when negative.
pub open spec fn dec_of_int(n: int) -> Seq<char> {
    if n < 0 {
        seq!['-'] + dec_of((-n) as nat)
    } else {
        dec_of(n as nat)
    }
}

fn digit_char(d: u128) -> (c: char)
    requires
        d < 10,
    ensures
        c == dec_digit(d as int),
{
    if d == 0 {
        '0'
    } else if d == 1 {
        '1'
    } else if d == 2 {
        '2'
    } else if d == 3 {
        '3'
    } else if d == 4 {
        '4'
    } else if d == 5 {
        '5'
    } else if d == 6 {
        '6'
    } else if d == 7 {
        '7'
    } else if d == 8 {
        '8'
    } else {
        '9'
    }
}

/// Appends the decimal rendering of `n` to `out`.
pub fn push_dec_u128(out: &mut Vec<char>, n: u128)
    ensures
        final(out)@ == old(out)@ + dec_of(n as nat),
    decreases n,
{
    if n < 10 {
        out.push(digit_char(n));
    } else {
        push_dec_u128(out, n / 10);
        out.push(digit_char(n % 10));
    }
}

/// Appends the decimal rendering of `n` to `out`.
pub fn push_dec_u64(out: &mut Vec<char>, n: u64)
    ensures
        final(out)@ == old(out)@ + dec_of(n as nat),
{
    push_dec_u128(out, n as u128);
}

/// Appends the signed decimal rendering of `n` to `out`.
pub fn push_dec_i128(out: &mut Vec<char>, n: i128)
    requires
        n > i128::MIN,
    ensures
        final(out)@ == old(out)@ + dec_of_int(n as int),
{
    if n < 0 {
        out.push('-');
        push_dec_u128(out, (-n) as u128);
    } else {
        push_dec_u128(out, n as u128);
    }
}

/// Whether `pat` occurs in `s` starting at index `i`.
pub open spec fn match_at(s: Seq<char>, pat: Seq<char>, i: int) -> bool {
    0 <= i && i + pat.len() <= s.len() && s.subrange(i, i + pat.len() as int) == pat
}

/// The first index at or after `i` where `pat` occurs in `s`.
pub open spec fn find_from(s: Seq<char>, pat: Seq<char>, i: int) -> Option<int>
    decreases s.len() - i,
{
    if i < 0 || i + pat.len() > s.len() {
        None
    } else if match_at(s, pat, i) {
        Some(i)
    } else if i < s.len() {
        find_from(s, pat, i + 1)
    } else {
        None
    }
}

/// The first index where `pat` occurs in `s`.
pub open spec fn find_first(s: Seq<char>, pat: Seq<char>) -> Option<int> {
    find_from(s, pat, 0)
}

fn is_match_at(s: &Vec<char>, pat: &Vec<char>, i: usize) -> (r: bool)
    requires
        i + pat@.len() <= s@.len(),
    ensures
        r == match_at(s@, pat@, i as int),
{
    let n = s.len();
    let m = pat.len();
    let mut j: usize = 0;
    while j < m
        invariant
            j <= m,
            m == pat@.len(),
            n == s@.len(),
            i + m <= n,
            forall|k: int| 0 <= k < j ==> s@[i + k] == pat@[k],
        decreases m - j,
    {
        if s[i + j] != pat[j] {
            assert(s@.subrange(i as int, i + pat@.len() as int)[j as int] != pat@[j as int]);
            return false;
        }
        j = j + 1;
    }
    assert(s@.subrange(i as int, i + pat@.len() as int) =~= pat@);
    true
}

/// The first occurrence of `pat` in `s`, as an index.
pub fn find_sub(s: &Vec<char>, pat: &Vec<char>) -> (r: Option<usize>)
    ensures
        match r {
            Some(i) => find_first(s@, pat@) == Some(i as int),
            None => find_first(s@, pat@) is None,
        },
{
    let n = s.len();
    let m = pat.len();
    if m > n {
        return None;
    }
    if m == 0 {
        assert(s@.subrange(0, 0) =~= pat@);
        return Some(0);
    }
    let last = n - m;
    let mut i: usize = 0;
    while i <= last
        invariant
            1 <= m == pat@.len(),
            n == s@.len(),
            m <= n,
            last == n - m,
            i <= last + 1,
            find_from(s@, pat@, 0) == find_from(s@, pat@, i as int),
        decreases last + 1 - i,
    {
        if is_match_at(s, pat, i) {
            return Some(i);
        }
        assert(find_from(s@, pat@, i as int) == find_from(s@, pat@, i + 1 as int));
        i = i + 1;
    }
    assert(find_from(s@, pat@, i as int) is None);
    None
}

/// Left-to-right decimal scan, as Rust's `usize` parsing performs it:
/// a non-digit character fails at once, and overflow fails as soon as the
/// accumulated value would exceed the maximum.
pub open spec fn spec_scan_usize(s: Seq<char>, i: int, acc: int) -> Result<usize, Seq<char>>
    decreases s.len() - i,
{
    if i < 0 || i >= s.len() {
        Ok((if 0 <= acc <= usize::MAX { acc } else { 0 }) as usize)
    } else if !('0' <= s[i] <= '9') {
        Err("invalid digit found in string"@)
    } else if acc * 10 + (s[i] as int - '0' as int) > usize::MAX {
        Err("number too large to fit in target type"@)
    } else {
        spec_scan_usize(s, i + 1, acc * 10 + (s[i] as int - '0' as int))
    }
}

/// Decimal parsing of a digit string, as Rust's `usize` parsing behaves:
/// empty strings, non-digit characters and overflow are errors, each with
/// the standard library's message.
pub open spec fn spec_parse_usize(s: Seq<char>) -> Result<usize, Seq<char>> {
    if s.len() == 0 {
        Err("cannot parse integer from empty string"@)
    } else {
        spec_scan_usize(s, 0, 0)
    }
}

/// Decimal parsing of a character vector.
pub fn parse_usize(s: &Vec<char>) -> (r: Result<usize, &'static str>)
    ensures
        match r {
            Ok(v) => spec_parse_usize(s@) == Ok::<usize, Seq<char>>(v),
            Err(e) => spec_parse_usize(s@) == Err::<usize, Seq<char>>(e@),
        },
{
    let n = s.len();
    if n == 0 {
        return Err("cannot parse integer from empty string");
    }
    let mut acc: usize = 0;
    let mut i: usize = 0;
    while i < n
        invariant
            i <= n,
            n == s@.len(),
            spec_scan_usize(s@, 0, 0) == spec_scan_usize(s@, i as int, acc as int),
        decreases n - i,
    {
        let c = s[i];
        if !('0' <= c && c <= '9') {
            return Err("invalid digit found in string");
        }
        let d = (c as u32 - '0' as u32) as usize;
        assert(d == s@[i as int] as int - '0' as int);
        let wide: u128 = acc as u128 * 10 + d as u128;
        assert(wide == acc as int * 10 + d as int) by (nonlinear_arith)
            requires
                wide == (acc as u128 * 10 + d as u128),
                acc <= u64::MAX,
                d < 10,
        ;
        if wide > usize::MAX as u128 {
            return Err("number too large to fit in target type");
        }
        acc = wide as usize;
        i = i + 1;
    }
    Ok(acc)
}

/// A prefix of `s` dropped when it ends in a carriage return, so that
/// CRLF-separated frames read like LF-separated ones.
pub open spec fn strip_cr(l: Seq<char>) -> Seq<char> {
    if l.len() > 0 && l.last() == '\r' {
        l.drop_last()
    } else {
        l
    }
}

/// The newline-separated segments of a text, in order.
pub open spec fn spec_split_lines(s: Seq<char>) -> Seq<Seq<char>>
    decreases s.len(),
    via spec_split_lines_dec
{
    match find_first(s, seq!['\n']) {
        Some(i) => seq![s.take(i)] + spec_split_lines(s.skip(i + 1)),
        None => seq![s],
    }
}

/// A found occurrence lies within bounds.
pub proof fn lemma_find_from_bounds(s: Seq<char>, pat: Seq<char>, i: int)
    requires
        crate::strutil::find_from(s, pat, i) is Some,
    ensures
        i <= crate::strutil::find_from(s, pat, i)->Some_0,
        crate::strutil::find_from(s, pat, i)->Some_0 + pat.len() <= s.len(),
        crate::strutil::find_from(s, pat, i)->Some_0 >= 0,
    decreases s.len() - i,
{
    if i < 0 || i + pat.len() > s.len() {
    } else if crate::strutil::match_at(s, pat, i) {
    } else if i < s.len() {
        lemma_find_from_bounds(s, pat, i + 1);
    }
}

#[via_fn]
proof fn spec_split_lines_dec(s: Seq<char>) {
    if find_first(s, seq!['\n']) is Some {
        lemma_find_from_bounds(s, seq!['\n'], 0);
    }
}

/// The view of a vector of line buffers.
pub open spec fn chunks_view(s: Seq<Vec<char>>) -> Seq<Seq<char>> {
    s.map_values(|v: Vec<char>| v@)
}

/// Taking views commutes with appending one chunk.
pub proof fn lemma_chunks_view_push(s: Seq<Vec<char>>, x: Vec<char>)
    ensures
        chunks_view(s.push(x)) == chunks_view(s).push(x@),
{
    assert forall|k: int| 0 <= k < s.len() + 1 implies #[trigger] chunks_view(s.push(x))[k]
        == chunks_view(s).push(x@)[k] by {
        if k < s.len() {
            assert(s.push(x)[k] == s[k]);
        } else {
            assert(s.push(x)[k] == x);
        }
    }
    assert(chunks_view(s.push(x)) =~= chunks_view(s).push(x@));
}

/// A copy of the characters between two positions.
pub fn slice_range(v: &Vec<char>, a: usize, b: usize) -> (r: Vec<char>)
    requires
        a <= b <= v@.len(),
    ensures
        r@ == v@.subrange(a as int, b as int),
{
    let mut r: Vec<char> = Vec::new();
    let mut i: usize = a;
    while i < b
        invariant
            a <= i <= b <= v@.len(),
            r@ == v@.subrange(a as int, i as int),
        decreases b - i,
    {
        r.push(v[i]);
        assert(v@.subrange(a as int, i + 1 as int) =~= v@.subrange(a as int, i as int).push(
            v@[i as int],
        ));
        i = i + 1;
    }
    r
}

/// Splits a text at newlines.
pub fn split_lines(v: &Vec<char>) -> (r: Vec<Vec<char>>)
    ensures
        chunks_view(r@) == spec_split_lines(v@),
{
    let mut nl: Vec<char> = Vec::new();
    nl.push('\n');
    proof {
        assert(nl@ =~= seq!['\n']);
    }
    let mut lines: Vec<Vec<char>> = Vec::new();
    let mut rem: Vec<char> = slice_range(v, 0, v.len());
    proof {
        assert(v@.subrange(0, v@.len() as int) =~= v@);
        assert(chunks_view(lines@) =~= Seq::<Seq<char>>::empty());
        assert(Seq::<Seq<char>>::empty() + spec_split_lines(v@) =~= spec_split_lines(v@));
    }
    loop
        invariant
            nl@ == seq!['\n'],
            spec_split_lines(v@) == chunks_view(lines@) + spec_split_lines(rem@),
        ensures
            spec_split_lines(v@) == chunks_view(lines@) + spec_split_lines(rem@),
            find_first(rem@, seq!['\n']) is None,
        decreases rem@.len(),
    {
        match crate::strutil::find_sub(&rem, &nl) {
            Some(i) => {
                proof {
                    lemma_find_from_bounds(rem@, nl@, 0);
                }
                let rl = rem.len();
                assert(i < rl);
                let line = slice_range(&rem, 0, i);
                let rest = slice_range(&rem, i + 1, rl);
                proof {
                    let ghost prev = lines@;
                    assert(spec_split_lines(rem@) == seq![rem@.take(i as int)]
                        + spec_split_lines(rem@.skip(i + 1)));
                }
                let ghost prev = lines@;
                let ghost old_rem = rem@;
                lines.push(line);
                rem = rest;
                proof {
                    lemma_chunks_view_push(prev, lines@[prev.len() as int]);
                    assert(chunks_view(lines@) =~= chunks_view(prev).push(old_rem.take(
                        i as int,
                    )));
                    assert(chunks_view(prev) + spec_split_lines(old_rem) =~= chunks_view(
                        lines@,
                    ) + spec_split_lines(rem@));
                }
            },
            None => {
                break ;
            },
        }
    }
    let ghost prev = lines@;
    let ghost last_rem = rem@;
    lines.push(rem);
    proof {
        lemma_chunks_view_push(prev, lines@[prev.len() as int]);
        assert(spec_split_lines(last_rem) == seq![last_rem]);
        assert(chunks_view(lines@) =~= spec_split_lines(v@));
    }
    lines
}

/// Views of the segments, each with a trailing carriage return stripped.
pub open spec fn strip_all_cr(gs: Seq<Seq<char>>) -> Seq<Seq<char>> {
    gs.map_values(|l: Seq<char>| strip_cr(l))
}

/// Stripping carriage returns commutes with appending one segment.
proof fn lemma_strip_all_cr_push(gs: Seq<Seq<char>>, x: Seq<char>)
    ensures
        strip_all_cr(gs.push(x)) == strip_all_cr(gs).push(strip_cr(x)),
{
    assert forall|k: int| 0 <= k < gs.len() + 1 implies #[trigger] strip_all_cr(gs.push(x))[k]
        == strip_all_cr(gs).push(strip_cr(x))[k] by {
        if k < gs.len() {
            assert(gs.push(x)[k] == gs[k]);
        } else {
            assert(gs.push(x)[k] == x);
        }
    }
    assert(strip_all_cr(gs.push(x)) =~= strip_all_cr(gs).push(strip_cr(x)));
}

/// The lines of a text, as Rust's line iterator yields them: the segments
/// between newlines, each line ending's carriage return stripped, and no
/// final empty line when the text ends in a newline.
pub open spec fn spec_lines(s: Seq<char>) -> Seq<Seq<char>> {
    let gs = spec_split_lines(s);
    let body = strip_all_cr(gs.drop_last());
    if gs.last().len() == 0 {
        body
    } else {
        body.push(gs.last())
    }
}

/// Splitting yields at least one segment.
pub proof fn lemma_split_lines_nonempty(s: Seq<char>)
    ensures
        spec_split_lines(s).len() >= 1,
{
}

/// The lines of a text, as values.
pub fn lines_of(v: &Vec<char>) -> (r: Vec<Vec<char>>)
    ensures
        chunks_view(r@) == spec_lines(v@),
{
    let ghost gs = spec_split_lines(v@);
    let segs = split_lines(v);
    let n = segs.len();
    proof {
        lemma_split_lines_nonempty(v@);
        assert(chunks_view(segs@).len() == n);
        assert(chunks_view(Seq::<Vec<char>>::empty()) =~= Seq::<Seq<char>>::empty());
        assert(gs.take(0) =~= Seq::<Seq<char>>::empty());
        assert(strip_all_cr(gs.take(0)) =~= Seq::<Seq<char>>::empty());
    }
    let mut out: Vec<Vec<char>> = Vec::new();
    let mut i: usize = 0;
    while i < n - 1
        invariant
            n >= 1,
            i <= n - 1,
            n == segs@.len(),
            gs == spec_split_lines(v@),
            chunks_view(segs@) == gs,
            gs.len() == n,
            chunks_view(out@) == strip_all_cr(gs.take(i as int)),
        decreases n - 1 - i,
    {
        assert(gs[i as int] == segs@[i as int]@);
        let seg = &segs[i];
        let mut end = seg.len();
        if end > 0 && seg[end - 1] == '\r' {
            end = end - 1;
        }
        let t = slice_range(seg, 0, end);
        proof {
            assert(t@ =~= strip_cr(gs[i as int]));
        }
        let ghost prev = out@;
        let ghost tv = t@;
        out.push(t);
        proof {
            lemma_chunks_view_push(prev, out@[prev.len() as int]);
            lemma_strip_all_cr_push(gs.take(i as int), gs[i as int]);
            assert(gs.take(i + 1) =~= gs.take(i as int).push(gs[i as int]));
            assert(chunks_view(out@) =~= strip_all_cr(gs.take(i + 1)));
        }
        i = i + 1;
    }
    proof {
        assert(gs.take(n - 1) =~= gs.drop_last());
    }
    let lastlen = segs[n - 1].len();
    if lastlen > 0 {
        assert(gs[n - 1] == segs@[n - 1]@);
        let lst = slice_range(&segs[n - 1], 0, lastlen);
        proof {
            assert(lst@ =~= gs.last());
        }
        let ghost prev = out@;
        out.push(lst);
        proof {
            lemma_chunks_view_push(prev, out@[prev.len() as int]);
            assert(chunks_view(out@) =~= spec_lines(v@));
        }
    } else {
        proof {
            assert(gs.last() == segs@[n - 1]@);
            assert(gs.last().len() == 0);
            assert(chunks_view(out@) =~= spec_lines(v@));
        }
    }
    out
}

} // verus!
