//! Parsing of the JSON-path editor's array-indexed path segments: a segment
//! such as a key followed by bracketed decimal indices splits into the key
//! and the index list. Editing the JSON document itself is the caller's
//! side.

use vstd::prelude::*;

use crate::strutil::{
    chars_to_string, find_first, find_sub, lemma_find_from_bounds, parse_usize, slice_range,
    spec_parse_usize, str_chars,
};

verus! {

/// The indices read from the text after an opening bracket: each index runs
/// to the segment's closing bracket (or to the segment's end), and each must
/// parse as a decimal number.
pub open spec fn spec_indices_from(s: Seq<char>) -> Result<Seq<usize>, Seq<char>>
    decreases s.len(),
    via spec_indices_from_dec
{
    let seg = match find_first(s, seq!['[']) {
        Some(nb) => s.take(nb),
        None => s,
    };
    let index_str = match find_first(seg, seq![']']) {
        Some(cb) => seg.take(cb),
        None => seg,
    };
    match spec_parse_usize(index_str) {
        Err(e) => Err(e),
        Ok(v) => match find_first(s, seq!['[']) {
            Some(nb) => match spec_indices_from(s.skip(nb + 1)) {
                Err(e) => Err(e),
                Ok(rest) => Ok(seq![v] + rest),
            },
            None => Ok(seq![v]),
        },
    }
}

#[via_fn]
proof fn spec_indices_from_dec(s: Seq<char>) {
    if find_first(s, seq!['[']) is Some {
        lemma_find_from_bounds(s, seq!['['], 0);
    }
}

/// A path segment split into its key and its bracketed indices; a bracketed
/// text that is not a decimal number is an error, with the standard
/// library's parse message.
pub open spec fn spec_parse_array_path(part: Seq<char>) -> Result<
    (Seq<char>, Seq<usize>),
    Seq<char>,
> {
    match find_first(part, seq!['[']) {
        None => Ok((part, Seq::empty())),
        Some(ob) => match spec_indices_from(part.skip(ob + 1)) {
            Err(e) => Err(e),
            Ok(ix) => Ok((part.take(ob), ix)),
        },
    }
}

/// Splits a path segment into its key and its bracketed indices.
pub fn parse_array_path(part: &str) -> (r: Result<(String, Vec<usize>), String>)
    ensures
        match spec_parse_array_path(part@) {
            Ok((key, ix)) => r matches Ok(p) && p.0@ == key && p.1@ == ix,
            Err(e) => r matches Err(msg) && msg@ == e,
        },
{
    let mut obr: Vec<char> = Vec::new();
    obr.push('[');
    let mut cbr: Vec<char> = Vec::new();
    cbr.push(']');
    proof {
        assert(obr@ =~= seq!['[']);
        assert(cbr@ =~= seq![']']);
    }
    let chars = str_chars(part);
    let ob = match find_sub(&chars, &obr) {
        Some(ob) => ob,
        None => {
            let mut ix: Vec<usize> = Vec::new();
            proof {
                assert(ix@ =~= Seq::<usize>::empty());
            }
            return Ok((part.to_owned(), ix));
        },
    };
    proof {
        lemma_find_from_bounds(chars@, obr@, 0);
    }
    let cl = chars.len();
    let keyc = slice_range(&chars, 0, ob);
    let key = chars_to_string(&keyc);
    let mut rem = slice_range(&chars, ob + 1, cl);
    let mut indices: Vec<usize> = Vec::new();
    proof {
        assert(indices@ =~= Seq::<usize>::empty());
        match spec_indices_from(rem@) {
            Ok(ix) => {
                assert(Seq::<usize>::empty() + ix =~= ix);
            },
            Err(_) => {},
        }
    }
    loop
        invariant_except_break
            match spec_indices_from(part@.skip(ob + 1)) {
                Ok(ix) => spec_indices_from(rem@) matches Ok(rest) && ix == indices@ + rest,
                Err(e) => spec_indices_from(rem@) matches Err(e2) && e2 == e,
            },
        invariant
            obr@ == seq!['['],
            cbr@ == seq![']'],
            find_first(part@, seq!['[']) == Some(ob as int),
        ensures
            spec_indices_from(part@.skip(ob + 1)) matches Ok(ix) && ix == indices@,
        decreases rem@.len(),
    {
        let seg_end = match find_sub(&rem, &obr) {
            Some(nb) => nb,
            None => rem.len(),
        };
        proof {
            if find_first(rem@, seq!['[']) is Some {
                lemma_find_from_bounds(rem@, obr@, 0);
            }
        }
        let seg = slice_range(&rem, 0, seg_end);
        let idx_end = match find_sub(&seg, &cbr) {
            Some(cb) => cb,
            None => seg.len(),
        };
        proof {
            if find_first(seg@, seq![']']) is Some {
                lemma_find_from_bounds(seg@, cbr@, 0);
            }
        }
        let sl = seg.len();
        let idx_str = slice_range(&seg, 0, idx_end);
        let ghost old_rem = rem@;
        proof {
            let segv = match find_first(old_rem, seq!['[']) {
                Some(nb) => old_rem.take(nb),
                None => old_rem,
            };
            let ixs = match find_first(segv, seq![']']) {
                Some(cb) => segv.take(cb),
                None => segv,
            };
            assert(seg@ =~= segv);
            assert(idx_str@ =~= ixs);
        }
        let v = match parse_usize(&idx_str) {
            Ok(v) => v,
            Err(e) => {
                proof {
                    assert(spec_indices_from(old_rem) == Err::<Seq<usize>, Seq<char>>(e@));
                }
                return Err(e.to_owned());
            },
        };
        let ghost prev = indices@;
        indices.push(v);
        match find_sub(&rem, &obr) {
            Some(nb) => {
                let rl = rem.len();
                let next = slice_range(&rem, nb + 1, rl);
                rem = next;
                proof {
                    assert(spec_indices_from(old_rem) == (match spec_indices_from(rem@) {
                        Err(e) => Err::<Seq<usize>, Seq<char>>(e),
                        Ok(rest) => Ok::<Seq<usize>, Seq<char>>(seq![v] + rest),
                    }));
                    match spec_indices_from(rem@) {
                        Ok(rest) => {
                            assert(prev + (seq![v] + rest) =~= indices@ + rest);
                        },
                        Err(_) => {},
                    }
                }
            },
            None => {
                proof {
                    assert(spec_indices_from(old_rem) == Ok::<Seq<usize>, Seq<char>>(seq![v]));
                    assert(prev + seq![v] =~= indices@);
                }
                break ;
            },
        }
    }
    Ok((key, indices))
}

} // verus!
