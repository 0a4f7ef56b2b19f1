//! Slash-separated paths held as text.
use vstd::prelude::*;
use crate::text::{chars_of, push_chars, push_str};

verus! {

broadcast use vstd::std_specs::vec::group_vec_axioms;

pub open spec fn dot() -> Seq<char> {
    seq!['.']
}

pub open spec fn dot_dot() -> Seq<char> {
    seq!['.', '.']
}

/// Adds the component `part` unless it is empty or `"."`.
pub open spec fn push_part(parts: Seq<Seq<char>>, part: Seq<char>) -> Seq<Seq<char>> {
    if part.len() > 0 && part != dot() {
        parts.push(part)
    } else {
        parts
    }
}

pub open spec fn part_scan(s: Seq<char>) -> (Seq<Seq<char>>, Seq<char>)
    decreases s.len(),
{
    if s.len() == 0 {
        (Seq::empty(), Seq::empty())
    } else {
        let prev = part_scan(s.drop_last());
        if s.last() == '/' {
            (push_part(prev.0, prev.1), Seq::empty())
        } else {
            (prev.0, prev.1.push(s.last()))
        }
    }
}

/// The components of a path: its `/`-separated parts without the empty ones
/// and `"."`.
pub open spec fn path_parts(s: Seq<char>) -> Seq<Seq<char>> {
    let st = part_scan(s);
    push_part(st.0, st.1)
}

/// The last component of a path, unless it is `".."` (`Path::file_name`).
pub open spec fn file_name(s: Seq<char>) -> Option<Seq<char>> {
    let ps = path_parts(s);
    if ps.len() > 0 && ps.last() != dot_dot() {
        Some(ps.last())
    } else {
        None
    }
}

fn is_dot(p: &Vec<char>) -> (r: bool)
    ensures
        r == (p@ == dot()),
{
    let r = p.len() == 1 && p[0] == '.';
    proof {
        if r {
            assert(p@ =~= dot());
        }
    }
    r
}

/// The last component of `path`, if it has one other than `".."`.
pub fn path_file_name(path: &Vec<char>) -> (r: Option<Vec<char>>)
    ensures
        match file_name(path@) {
            Some(n) => r matches Some(v) && v@ == n,
            None => r is None,
        },
{
    // The last component kept so far, and the component being read.
    let mut last: Option<Vec<char>> = None;
    let mut cur: Vec<char> = Vec::new();
    let mut i: usize = 0;
    while i < path.len()
        invariant
            0 <= i <= path.len(),
            part_scan(path@.take(i as int)).1 == cur@,
            match last {
                Some(v) => part_scan(path@.take(i as int)).0.len() > 0 && v@ == part_scan(
                    path@.take(i as int),
                ).0.last(),
                None => part_scan(path@.take(i as int)).0.len() == 0,
            },
        decreases path.len() - i,
    {
        let c = path[i];
        assert(path@.take(i + 1).drop_last() == path@.take(i as int));
        if c == '/' {
            if cur.len() > 0 && !is_dot(&cur) {
                last = Some(cur);
            }
            cur = Vec::new();
        } else {
            cur.push(c);
        }
        i = i + 1;
    }
    assert(path@.take(path.len() as int) == path@);
    if cur.len() > 0 && !is_dot(&cur) {
        last = Some(cur);
    }
    match last {
        Some(v) => {
            if v.len() == 2 && v[0] == '.' && v[1] == '.' {
                assert(v@ =~= dot_dot());
                None
            } else {
                assert(v@ != dot_dot());
                Some(v)
            }
        },
        None => None,
    }
}

/// `rel` appended to `base` as a further component (`Path::join` with a
/// relative `rel`).
pub open spec fn join_path(base: Seq<char>, rel: Seq<char>) -> Seq<char> {
    if base.len() == 0 || base.last() == '/' {
        base + rel
    } else {
        base + seq!['/'] + rel
    }
}

/// Text without a `/`.
pub open spec fn no_slash(w: Seq<char>) -> bool {
    forall|i: int| 0 <= i < w.len() ==> #[trigger] w[i] != '/'
}

proof fn lemma_scan_append(x: Seq<char>, w: Seq<char>)
    requires
        no_slash(w),
    ensures
        part_scan(x + w) == (part_scan(x).0, part_scan(x).1 + w),
    decreases w.len(),
{
    if w.len() == 0 {
        assert(x + w =~= x);
        assert(part_scan(x).1 + w =~= part_scan(x).1);
    } else {
        let v = w.drop_last();
        assert forall|i: int| 0 <= i < v.len() implies #[trigger] v[i] != '/' by {
            assert(v[i] == w[i]);
        }
        lemma_scan_append(x, v);
        assert((x + w).drop_last() =~= x + v);
        assert((x + w).last() == w.last());
        assert(w.last() != '/');
        assert(part_scan(x).1 + v.push(w.last()) =~= part_scan(x).1 + w);
        assert((part_scan(x).1 + v).push(w.last()) =~= part_scan(x).1 + w);
    }
}

/// Joining a plain name (no `/`, not empty, not `"."` or `".."`) onto a
/// path makes that name the path's file name.
pub proof fn law_file_name_of_join(base: Seq<char>, name: Seq<char>)
    requires
        no_slash(name),
        name.len() > 0,
        name != dot(),
        name != dot_dot(),
    ensures
        file_name(join_path(base, name)) == Some(name),
{
    let x = if base.len() == 0 || base.last() == '/' {
        base
    } else {
        base + seq!['/']
    };
    assert(join_path(base, name) == x + name);
    if x.len() > 0 {
        assert(x.last() == '/');
        assert(x.drop_last() + seq![x.last()] =~= x);
        assert(part_scan(x).1 == Seq::<char>::empty());
    }
    lemma_scan_append(x, name);
    assert(part_scan(x).1 + name =~= name);
}

pub fn join(base: &str, rel: &str) -> (r: String)
    ensures
        r@ == join_path(base@, rel@),
{
    let b = chars_of(base);
    let mut s = String::new();
    push_chars(&mut s, &b);
    if !(b.len() == 0 || b[b.len() - 1] == '/') {
        push_str(&mut s, "/");
        proof {
            reveal_strlit("/");
        }
    }
    push_str(&mut s, rel);
    assert(s@ =~= join_path(base@, rel@));
    s
}

} // verus!
