//! Slash-separated path text, following the Unix rules of `std::path`.

use vstd::prelude::*;

verus! {

/// `base.join(seg)`: an absolute `seg` replaces `base`; otherwise `seg` is
/// appended, with a separator unless `base` is empty or already ends in one.
pub open spec fn path_join(base: Seq<char>, seg: Seq<char>) -> Seq<char> {
    if seg.len() > 0 && seg[0] == '/' {
        seg
    } else if base.len() == 0 {
        seg
    } else if base.last() == '/' {
        base + seg
    } else {
        base + seq!['/'] + seg
    }
}

/// Joins a relative or absolute segment onto a base path.
pub fn join_path(base: &str, seg: &str) -> (p: String)
    ensures
        p@ == path_join(base@, seg@),
{
    let seg_len = seg.unicode_len();
    if seg_len > 0 && seg.get_char(0) == '/' {
        return String::from_str(seg);
    }
    let n = base.unicode_len();
    if n == 0 {
        return String::from_str(seg);
    }
    let mut p = String::from_str(base);
    if base.get_char(n - 1) != '/' {
        p.append("/");
        proof {
            reveal_strlit("/");
        }
    }
    p.append(seg);
    proof {
        assert(base@.last() == base@[n - 1]);
    }
    p
}

/// The characters after the last `/` of `p` (all of `p` if it has none).
pub open spec fn trailing_segment(p: Seq<char>) -> Seq<char>
    decreases p.len(),
{
    if p.len() == 0 || p.last() == '/' {
        Seq::empty()
    } else {
        trailing_segment(p.drop_last()).push(p.last())
    }
}

pub proof fn lemma_trailing_segment(p: Seq<char>)
    ensures
        trailing_segment(p).len() <= p.len(),
        trailing_segment(p) == p.subrange(p.len() - trailing_segment(p).len(), p.len() as int),
        forall|j: int| 0 <= j < trailing_segment(p).len() ==> trailing_segment(p)[j] != '/',
        trailing_segment(p).len() < p.len() ==> p[p.len() - trailing_segment(p).len() - 1] == '/',
    decreases p.len(),
{
    if p.len() > 0 && p.last() != '/' {
        lemma_trailing_segment(p.drop_last());
        let t = trailing_segment(p.drop_last());
        assert(trailing_segment(p) =~= p.subrange(p.len() - t.len() - 1, p.len() as int));
    }
}

/// Final component of a path as `Path::file_name` reports it: trailing
/// separators and `.` components are skipped; a final `..`, an empty path
/// or a bare root has none.
pub open spec fn file_name_of(p: Seq<char>) -> Option<Seq<char>>
    decreases p.len(),
{
    if p.len() == 0 {
        None
    } else if p.last() == '/' {
        file_name_of(p.drop_last())
    } else {
        let seg = trailing_segment(p);
        if seg == seq!['.'] {
            file_name_of(p.subrange(0, p.len() - 1))
        } else if seg == seq!['.', '.'] {
            None
        } else {
            Some(seg)
        }
    }
}

/// A single path component: non-empty, free of separators, and neither
/// `.` nor `..`.
pub open spec fn plain_component(c: Seq<char>) -> bool {
    &&& c.len() > 0
    &&& forall|j: int| 0 <= j < c.len() ==> c[j] != '/'
    &&& c != seq!['.']
    &&& c != seq!['.', '.']
}

proof fn lemma_trailing_segment_after_separator(p: Seq<char>, c: Seq<char>)
    requires
        p.len() == 0 || p.last() == '/',
        forall|j: int| 0 <= j < c.len() ==> c[j] != '/',
    ensures
        trailing_segment(p + c) == c,
    decreases c.len(),
{
    if c.len() > 0 {
        let q = p + c;
        assert(q.drop_last() =~= p + c.drop_last());
        lemma_trailing_segment_after_separator(p, c.drop_last());
        assert(q.last() == c.last());
        assert(c.drop_last().push(c.last()) =~= c);
    } else {
        assert(p + c =~= p);
    }
}

/// Joining a plain component onto any directory yields a path whose last
/// component is that component.
pub proof fn law_join_names_last_component(base: Seq<char>, c: Seq<char>)
    requires
        plain_component(c),
    ensures
        file_name_of(path_join(base, c)) == Some(c),
{
    let joined = path_join(base, c);
    if base.len() == 0 {
        assert(Seq::<char>::empty() + c =~= c);
        lemma_trailing_segment_after_separator(Seq::<char>::empty(), c);
    } else if base.last() == '/' {
        lemma_trailing_segment_after_separator(base, c);
    } else {
        let b = base + seq!['/'];
        assert(b.last() == '/');
        lemma_trailing_segment_after_separator(b, c);
    }
    assert(joined.last() == c.last());
}

/// Last component of `path`, if it has one.
pub fn file_name(path: &str) -> (r: Option<String>)
    ensures
        match r {
            Some(s) => file_name_of(path@) == Some(s@),
            None => file_name_of(path@) is None,
        },
{
    let mut end = path.unicode_len();
    assert(path@.subrange(0, end as int) =~= path@);
    loop
        invariant
            end <= path@.len(),
            file_name_of(path@) == file_name_of(path@.subrange(0, end as int)),
        decreases end,
    {
        let ghost cur = path@.subrange(0, end as int);
        if end == 0 {
            return None;
        }
        if path.get_char(end - 1) == '/' {
            assert(cur.drop_last() =~= path@.subrange(0, end - 1));
            end = end - 1;
        } else {
            // Locate the start of the trailing segment.
            let mut start = end;
            while start > 0 && path.get_char(start - 1) != '/'
                invariant
                    start <= end,
                    end <= path@.len(),
                    forall|j: int| start <= j < end ==> path@[j] != '/',
                decreases start,
            {
                start = start - 1;
            }
            proof {
                lemma_trailing_segment(cur);
                let t = trailing_segment(cur);
                // the trailing segment of `cur` is exactly path[start..end]
                assert(t.len() == end - start) by {
                    if t.len() < end - start {
                        assert(cur[cur.len() - t.len() - 1] == '/');
                        assert(path@[end - t.len() - 1] == '/');
                    }
                    if t.len() > end - start {
                        assert(start > 0);
                        assert(path@[start - 1] == '/');
                        assert(t[t.len() - (end - start) - 1] == cur[start - 1]);
                    }
                }
                assert(t =~= path@.subrange(start as int, end as int));
            }
            let seg = path.substring_char(start, end);
            let len = end - start;
            if len == 1 && seg.get_char(0) == '.' {
                proof {
                    assert(trailing_segment(cur) =~= seq!['.']);
                    assert(cur.subrange(0, cur.len() - 1) =~= path@.subrange(0, end - 1));
                }
                end = end - 1;
            } else if len == 2 && seg.get_char(0) == '.' && seg.get_char(1) == '.' {
                proof {
                    assert(trailing_segment(cur) =~= seq!['.', '.']);
                }
                return None;
            } else {
                proof {
                    if trailing_segment(cur) == seq!['.'] {
                        assert(seg@ == seq!['.']);
                    }
                    if trailing_segment(cur) == seq!['.', '.'] {
                        assert(seg@ == seq!['.', '.']);
                    }
                }
                return Some(String::from_str(seg));
            }
        }
    }
}


/// Position of the last `c` in `s`.
pub open spec fn last_index_of(s: Seq<char>, c: char) -> Option<int>
    decreases s.len(),
{
    if s.len() == 0 {
        None
    } else if s.last() == c {
        Some(s.len() - 1)
    } else {
        last_index_of(s.drop_last(), c)
    }
}

/// The extension of a file name: what follows its last `.`, provided that
/// dot does not start the name.
pub open spec fn extension_of_name(name: Seq<char>) -> Option<Seq<char>> {
    match last_index_of(name, '.') {
        Some(k) => if k == 0 {
            None
        } else {
            Some(name.subrange(k + 1, name.len() as int))
        },
        None => None,
    }
}

/// The extension of a path's last component.
pub open spec fn extension_of(p: Seq<char>) -> Option<Seq<char>> {
    match file_name_of(p) {
        Some(n) => extension_of_name(n),
        None => None,
    }
}

/// Extension of the last component of `path`, if it has one.
pub fn extension(path: &str) -> (r: Option<String>)
    ensures
        match r {
            Some(e) => extension_of(path@) == Some(e@),
            None => extension_of(path@) is None,
        },
{
    let name = match file_name(path) {
        Some(n) => n,
        None => {
            return None;
        },
    };
    let n = name.unicode_len();
    let mut i: usize = n;
    assert(name@.subrange(0, n as int) =~= name@);
    while i > 0 && name.get_char(i - 1) != '.'
        invariant
            n == name@.len(),
            i <= n,
            last_index_of(name@, '.') == last_index_of(name@.subrange(0, i as int), '.'),
        decreases i,
    {
        assert(name@.subrange(0, i as int).drop_last() =~= name@.subrange(0, i - 1));
        i = i - 1;
    }
    if i <= 1 {
        proof {
            if i == 1 {
                assert(name@.subrange(0, 1).last() == '.');
            }
        }
        return None;
    }
    proof {
        assert(name@.subrange(0, i as int).last() == '.');
    }
    Some(String::from_str(name.substring_char(i, n)))
}

} // verus!
