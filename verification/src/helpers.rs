//! Small path helpers shared by the tools. The configuration loading and
//! saving that sat beside them is file and environment input/output and
//! stays outside the library.

use vstd::prelude::*;
use vstd::string::StrSliceExecFns;

verus! {

/// The extension of a path, read off its text: the characters after the
/// last dot of the last slash-separated component — and none when that
/// component has no dot, or only its leading dot.
pub open spec fn spec_extension(path: Seq<char>) -> Option<Seq<char>>
    decreases path.len(),
{
    if path.len() == 0 {
        None
    } else if path.last() == '/' {
        None
    } else if path.last() == '.' {
        if path.len() == 1 || path[path.len() - 2] == '/' {
            None
        } else {
            Some(Seq::empty())
        }
    } else {
        match spec_extension(path.drop_last()) {
            None => None,
            Some(e) => Some(e.push(path.last())),
        }
    }
}

/// An extension already gathered, continued by a suffix of plain characters.
pub open spec fn ext_with_suffix(o: Option<Seq<char>>, suffix: Seq<char>) -> Option<Seq<char>> {
    match o {
        None => None,
        Some(e) => Some(e + suffix),
    }
}

/// Whether the path's file name carries exactly the given extension.
pub fn has_specific_extension(path: &str, ext: &str) -> (r: bool)
    ensures
        r == (spec_extension(path@) == Some(ext@)),
{
    let n = path.unicode_len();
    let mut i: usize = n;
    proof {
        assert(path@.take(n as int) =~= path@);
        match spec_extension(path@) {
            Some(e) => {
                assert(e + path@.skip(n as int) =~= e);
            },
            None => {},
        }
    }
    loop
        invariant
            i <= n,
            n == path@.len(),
            spec_extension(path@) == ext_with_suffix(
                spec_extension(path@.take(i as int)),
                path@.skip(i as int),
            ),
        ensures
            spec_extension(path@) == ext_with_suffix(
                spec_extension(path@.take(i as int)),
                path@.skip(i as int),
            ),
            i == 0 || path@[i - 1] == '.' || path@[i - 1] == '/',
        decreases i,
    {
        if i == 0 {
            break ;
        }
        let c = path.get_char(i - 1);
        if c == '.' || c == '/' {
            break ;
        }
        proof {
            let pre = path@.take(i as int);
            assert(pre.last() == path@[i - 1]);
            assert(pre.drop_last() =~= path@.take(i - 1));
            match spec_extension(path@.take(i - 1)) {
                Some(e) => {
                    assert(e.push(path@[i - 1]) + path@.skip(i as int) =~= e + path@.skip(
                        i - 1,
                    ));
                },
                None => {},
            }
        }
        i = i - 1;
    }
    if i == 0 {
        proof {
            assert(path@.take(0int).len() == 0);
        }
        return false;
    }
    let c = path.get_char(i - 1);
    if c == '/' {
        proof {
            assert(path@.take(i as int).last() == '/');
        }
        return false;
    }
    // The character before position `i` is the last dot of the component.
    proof {
        assert(path@.take(i as int).last() == '.');
    }
    if i == 1 || path.get_char(i - 2) == '/' {
        proof {
            let pre = path@.take(i as int);
            if i > 1 {
                assert(pre[pre.len() - 2] == path@[i - 2]);
            }
            assert(spec_extension(pre) is None);
        }
        return false;
    }
    proof {
        let pre = path@.take(i as int);
        assert(pre[pre.len() - 2] == path@[i - 2]);
        assert(spec_extension(pre) == Some(Seq::<char>::empty()));
        assert(Seq::<char>::empty() + path@.skip(i as int) =~= path@.skip(i as int));
        assert(spec_extension(path@) == Some(path@.skip(i as int)));
    }
    // Compare the characters after the dot with `ext`.
    let m = ext.unicode_len();
    if n - i != m {
        return false;
    }
    let mut j: usize = 0;
    while j < m
        invariant
            j <= m,
            m == ext@.len(),
            i + m == n,
            n == path@.len(),
            spec_extension(path@) == Some(path@.skip(i as int)),
            forall|k: int| 0 <= k < j ==> path@[i + k] == ext@[k],
        decreases m - j,
    {
        if path.get_char(i + j) != ext.get_char(j) {
            proof {
                assert(path@.skip(i as int)[j as int] != ext@[j as int]);
            }
            return false;
        }
        j = j + 1;
    }
    proof {
        assert(path@.skip(i as int) =~= ext@);
    }
    true
}

} // verus!
