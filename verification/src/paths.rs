//! Candidate extensions of a path, and sub-MIME candidates of a MIME
//! type, both used for cascading table lookups.

use vstd::prelude::*;
use crate::mapping::HandlerMapping;
use crate::text::chars_eq_str;
use crate::text::chars_to_string;
use crate::text::lower_of;
use crate::text::lowercase;
use crate::text::str_to_chars;
use crate::text::subvec;

verus! {

/// The index of the last occurrence of `c`, or `-1`.
pub open spec fn last_index_of(s: Seq<char>, c: char) -> int
    decreases s.len(),
{
    if s.len() == 0 {
        -1
    } else if s.last() == c {
        s.len() - 1
    } else {
        last_index_of(s.drop_last(), c)
    }
}

pub proof fn lemma_last_index_of_bounds(s: Seq<char>, c: char)
    ensures
        -1 <= last_index_of(s, c) < s.len(),
    decreases s.len(),
{
    if s.len() > 0 && s.last() != c {
        lemma_last_index_of_bounds(s.drop_last(), c);
    }
}

/// The index of the first occurrence of `c`, or `-1`.
pub open spec fn first_index_of(s: Seq<char>, c: char) -> int
    decreases s.len(),
{
    if s.len() == 0 {
        -1
    } else if s[0] == c {
        0
    } else {
        let r = first_index_of(s.skip(1), c);
        if r < 0 {
            -1
        } else {
            r + 1
        }
    }
}

proof fn lemma_first_index_of_char(s: Seq<char>, c: char, j: int)
    requires
        0 <= j <= s.len(),
        forall|k: int| 0 <= k < j ==> s[k] != c,
    ensures
        (j < s.len() && s[j] == c) ==> first_index_of(s, c) == j,
        j == s.len() ==> first_index_of(s, c) == -1,
    decreases j,
{
    if j > 0 {
        assert(s[0] != c);
        assert(forall|k: int| 0 <= k < j - 1 ==> #[trigger] s.skip(1)[k] == s[k + 1]);
        lemma_first_index_of_char(s.skip(1), c, j - 1);
        if j < s.len() {
            assert(s.skip(1)[j - 1] == s[j]);
        }
    }
}

fn last_index_of_exec(v: &Vec<char>, c: char) -> (r: Option<usize>)
    ensures
        match r {
            Some(i) => last_index_of(v@, c) == i && i < v@.len(),
            None => last_index_of(v@, c) == -1,
        },
{
    let n = v.len();
    let mut j = n;
    proof {
        assert(v@.take(n as int) =~= v@);
    }
    while j > 0
        invariant
            j <= n,
            n == v@.len(),
            last_index_of(v@, c) == last_index_of(v@.take(j as int), c),
        decreases j,
    {
        j = j - 1;
        proof {
            assert(v@.take(j + 1 as int).last() == v@[j as int]);
            assert(v@.take(j + 1 as int).drop_last() =~= v@.take(j as int));
        }
        if v[j] == c {
            return Some(j);
        }
    }
    None
}

fn first_index_of_exec(v: &Vec<char>, c: char) -> (r: Option<usize>)
    ensures
        match r {
            Some(i) => first_index_of(v@, c) == i && i < v@.len(),
            None => first_index_of(v@, c) == -1,
        },
{
    let n = v.len();
    let mut j: usize = 0;
    while j < n
        invariant
            j <= n,
            n == v@.len(),
            forall|k: int| 0 <= k < j ==> v@[k] != c,
        decreases n - j,
    {
        if v[j] == c {
            proof {
                lemma_first_index_of_char(v@, c, j as int);
            }
            return Some(j);
        }
        j = j + 1;
    }
    proof {
        lemma_first_index_of_char(v@, c, n as int);
    }
    None
}

/// The final component of a path, as the standard library's `Path` sees
/// it on Unix: components are split on `/`, empty and `.` components do
/// not count, and a path that ends in `..` has no file name.
pub open spec fn file_name_spec(p: Seq<char>) -> Option<Seq<char>>
    decreases p.len(),
    via file_name_spec_dec
{
    if p.len() == 0 {
        None
    } else {
        let li = last_index_of(p, '/');
        let last = p.skip(li + 1);
        if last == ".."@ {
            None
        } else if last.len() > 0 && last != "."@ {
            Some(last)
        } else if li <= 0 {
            None
        } else {
            file_name_spec(p.take(li))
        }
    }
}

#[via_fn]
proof fn file_name_spec_dec(p: Seq<char>) {
    lemma_last_index_of_bounds(p, '/');
}

/// The extension of a file name: what follows the last `.`, unless the
/// only `.` starts the name.
pub open spec fn extension_spec(f: Seq<char>) -> Option<Seq<char>> {
    let ld = last_index_of(f, '.');
    if ld > 0 {
        Some(f.skip(ld + 1))
    } else {
        None
    }
}

/// The candidate extensions of a path, most specific first: the last two
/// dot-separated suffixes joined (when the file name has at least two
/// dots), then the plain extension; each lower-cased.  A path without an
/// extension has no candidates.
pub open spec fn path_extensions_spec(p: Seq<char>) -> Seq<Seq<char>> {
    match file_name_spec(p) {
        None => Seq::empty(),
        Some(f) => match extension_spec(f) {
            None => Seq::empty(),
            Some(ext) => {
                let ld = last_index_of(f, '.');
                let d2 = last_index_of(f.take(ld), '.');
                if d2 >= 0 {
                    seq![lower_of(f.skip(d2 + 1)), lower_of(ext)]
                } else {
                    seq![lower_of(ext)]
                }
            },
        },
    }
}

fn file_name_exec(p: &Vec<char>) -> (r: Option<Vec<char>>)
    ensures
        match (r, file_name_spec(p@)) {
            (Some(v), Some(f)) => v@ == f,
            (None, None) => true,
            _ => false,
        },
    decreases p@.len(),
{
    if p.len() == 0 {
        return None;
    }
    proof {
        lemma_last_index_of_bounds(p@, '/');
    }
    let li = last_index_of_exec(p, '/');
    let start = match li {
        Some(i) => i + 1,
        None => 0,
    };
    let last = subvec(p, start, p.len());
    proof {
        assert(last@ =~= p@.skip(last_index_of(p@, '/') + 1));
    }
    if chars_eq_str(&last, "..") {
        None
    } else if last.len() > 0 && !chars_eq_str(&last, ".") {
        Some(last)
    } else {
        match li {
            Some(i) => {
                if i > 0 {
                    let prefix = subvec(p, 0, i);
                    proof {
                        assert(prefix@ =~= p@.take(i as int));
                    }
                    file_name_exec(&prefix)
                } else {
                    None
                }
            },
            None => None,
        }
    }
}

/// The sub-MIME candidates of `s`, most specific first: the full string;
/// the prefix before a trailing `+suffix`; that base progressively
/// stripped of trailing `.segment`s; and the type before the `/`.
pub open spec fn split_mime_spec(s: Seq<char>) -> Seq<Seq<char>> {
    let lp = last_index_of(s, '+');
    let base = if lp >= 0 {
        s.take(lp)
    } else {
        s
    };
    let head = if lp >= 0 {
        seq![s, base]
    } else {
        seq![s]
    };
    let fs = first_index_of(base, '/');
    let tail = if fs >= 0 {
        seq![base.take(fs)]
    } else {
        Seq::<Seq<char>>::empty()
    };
    head + dot_prefixes(base, base.len() as int) + tail
}

/// The prefixes of `b` that end just before a `.` below `upto`, longest
/// first.
pub open spec fn dot_prefixes(b: Seq<char>, upto: int) -> Seq<Seq<char>>
    decreases upto,
{
    if upto <= 0 {
        Seq::empty()
    } else if b[upto - 1] == '.' {
        seq![b.take(upto - 1)] + dot_prefixes(b, upto - 1)
    } else {
        dot_prefixes(b, upto - 1)
    }
}

impl HandlerMapping {
    /// The candidate extensions for a path, most specific first and
    /// lower-cased: `archive.tar.gz` gives `tar.gz` then `gz`.
    pub fn path_extensions(path: &str) -> (r: Vec<String>)
        ensures
            r.deep_view() == path_extensions_spec(path@),
    {
        let pv = str_to_chars(path);
        let mut r: Vec<String> = Vec::new();
        let f = match file_name_exec(&pv) {
            Some(f) => f,
            None => {
                proof {
                    assert(r.deep_view() =~= path_extensions_spec(path@));
                }
                return r;
            },
        };
        proof {
            lemma_last_index_of_bounds(f@, '.');
        }
        let ld = match last_index_of_exec(&f, '.') {
            Some(i) => i,
            None => {
                proof {
                    assert(r.deep_view() =~= path_extensions_spec(path@));
                }
                return r;
            },
        };
        if ld == 0 {
            proof {
                assert(r.deep_view() =~= path_extensions_spec(path@));
            }
            return r;
        }
        let flen = f.len();
        let ext = subvec(&f, ld + 1, flen);
        proof {
            assert(ext@ =~= f@.skip(ld + 1));
        }
        let head = subvec(&f, 0, ld);
        proof {
            assert(head@ =~= f@.take(ld as int));
            lemma_last_index_of_bounds(head@, '.');
        }
        if let Some(d2) = last_index_of_exec(&head, '.') {
            let dext = subvec(&f, d2 + 1, flen);
            proof {
                assert(dext@ =~= f@.skip(d2 + 1));
            }
            let ds = chars_to_string(&dext);
            r.push(lowercase(ds.as_str()));
        }
        let es = chars_to_string(&ext);
        r.push(lowercase(es.as_str()));
        proof {
            assert(r.deep_view() =~= path_extensions_spec(path@));
        }
        r
    }

    /// The sub-MIME candidates of a MIME type, most specific first:
    /// `application/pkix-cert+pem` gives the full string, then
    /// `application/pkix-cert`, then `application`.
    pub fn split_mime(s: &str) -> (r: Vec<String>)
        ensures
            r.deep_view() == split_mime_spec(s@),
    {
        let sv = str_to_chars(s);
        let mut r: Vec<String> = Vec::new();
        r.push(chars_to_string(&sv));
        proof {
            lemma_last_index_of_bounds(sv@, '+');
        }
        let base = match last_index_of_exec(&sv, '+') {
            Some(lp) => {
                let b = subvec(&sv, 0, lp);
                proof {
                    assert(b@ =~= s@.take(lp as int));
                }
                r.push(chars_to_string(&b));
                b
            },
            None => sv,
        };
        let ghost head = r.deep_view();
        let n = base.len();
        let mut i: usize = n;
        proof {
            assert(head + dot_prefixes(base@, n as int) =~= head + dot_prefixes(base@, n as int));
        }
        while i > 0
            invariant
                i <= n,
                n == base@.len(),
                head + dot_prefixes(base@, n as int) =~= r.deep_view() + dot_prefixes(
                    base@,
                    i as int,
                ),
            decreases i,
    {
            i = i - 1;
            if base[i] == '.' {
                let pre = subvec(&base, 0, i);
                proof {
                    assert(pre@ =~= base@.take(i as int));
                }
                let ghost before = r.deep_view();
                r.push(chars_to_string(&pre));
                proof {
                    assert(r.deep_view() =~= before.push(base@.take(i as int)));
                    assert(dot_prefixes(base@, i + 1 as int) =~= seq![base@.take(i as int)]
                        + dot_prefixes(base@, i as int));
                    assert(head + dot_prefixes(base@, n as int) =~= r.deep_view() + dot_prefixes(
                        base@,
                        i as int,
                    ));
                }
            }
        }
        if let Some(fs) = first_index_of_exec(&base, '/') {
            let pre = subvec(&base, 0, fs);
            proof {
                assert(pre@ =~= base@.take(fs as int));
            }
            let ghost before = r.deep_view();
            r.push(chars_to_string(&pre));
            proof {
                assert(r.deep_view() =~= before.push(base@.take(fs as int)));
            }
        }
        proof {
            assert(r.deep_view() =~= split_mime_spec(s@));
        }
        r
    }
}

} // verus!
