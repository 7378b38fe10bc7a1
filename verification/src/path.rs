//! Paths as they stand in debug information: components separated by `/`.

use vstd::prelude::*;
use vstd::string::*;

verus! {

/// Whether a path starts at the root.
pub open spec fn is_absolute(path: Seq<char>) -> bool {
    path.len() > 0 && path[0] == '/'
}

/// `rel` seen from `base`: an absolute `rel` stands for itself, and so does
/// any `rel` from an empty `base`; otherwise `rel` follows `base`, with one
/// `/` between them unless `base` ends in one.
pub open spec fn joined_path(base: Seq<char>, rel: Seq<char>) -> Seq<char> {
    if is_absolute(rel) || base.len() == 0 {
        rel
    } else if base.last() == '/' {
        base + rel
    } else {
        base + seq!['/'] + rel
    }
}

/// Where the last component of `path` starts: behind its last `/`, or at 0.
pub open spec fn component_start(path: Seq<char>) -> int
    decreases path.len(),
{
    if path.len() == 0 || path.last() == '/' {
        path.len() as int
    } else {
        component_start(path.drop_last())
    }
}

/// The final component of `path` where it names a file or directory:
/// trailing `/` and trailing `.` components are passed over; a path that
/// ends in `..`, or that has no named component, gives the empty text.
pub open spec fn file_name_of(path: Seq<char>) -> Seq<char>
    decreases path.len(),
{
    if path.len() == 0 {
        Seq::empty()
    } else if path.last() == '/' {
        file_name_of(path.drop_last())
    } else {
        let start = component_start(path);
        let name = path.skip(start);
        if name == seq!['.', '.'] {
            Seq::empty()
        } else if name == seq!['.'] {
            file_name_of(path.drop_last())
        } else {
            name
        }
    }
}

/// The start of the last component lies inside the path, and nothing from
/// there on is a `/`.
pub proof fn lemma_component_start(path: Seq<char>)
    ensures
        0 <= component_start(path) <= path.len(),
        forall|i: int| component_start(path) <= i < path.len() ==> path[i] != '/',
        component_start(path) > 0 ==> path[component_start(path) - 1] == '/',
    decreases path.len(),
{
    if path.len() != 0 && path.last() != '/' {
        let front = path.drop_last();
        lemma_component_start(front);
        assert forall|i: int| component_start(path) <= i < path.len() implies path[i] != '/' by {
            if i < front.len() {
                assert(path[i] == front[i]);
            }
        }
    }
}

/// A path joined to an absolute base is absolute.
pub proof fn lemma_joined_absolute(base: Seq<char>, rel: Seq<char>)
    requires
        is_absolute(base),
    ensures
        is_absolute(joined_path(base, rel)),
{
}

/// The characters of a text, one by one.
pub fn chars_of(s: &str) -> (r: Vec<char>)
    ensures
        r@ == s@,
{
    let n = s.unicode_len();
    let mut out: Vec<char> = Vec::new();
    let mut i: usize = 0;
    while i < n
        invariant
            i <= n,
            n == s@.len(),
            out@ == s@.take(i as int),
        decreases n - i,
    {
        out.push(s.get_char(i));
        i = i + 1;
        assert(out@ =~= s@.take(i as int));
    }
    assert(s@.take(n as int) =~= s@);
    out
}

/// `rel` seen from `base`.
pub fn join(base: &str, rel: &str) -> (r: String)
    ensures
        r@ == joined_path(base@, rel@),
{
    proof {
        reveal_strlit("/");
    }
    let base_len = base.unicode_len();
    let rel_len = rel.unicode_len();
    let mut out = String::new();
    if (rel_len > 0 && rel.get_char(0) == '/') || base_len == 0 {
        out.append(rel);
        assert(out@ =~= rel@);
    } else {
        out.append(base);
        if base.get_char(base_len - 1) != '/' {
            out.append("/");
        }
        out.append(rel);
        assert(out@ =~= joined_path(base@, rel@));
    }
    out
}

/// Where the last component of the first `end` characters of `path` starts.
fn component_start_at(path: &Vec<char>, end: usize) -> (r: usize)
    requires
        end <= path@.len(),
    ensures
        r == component_start(path@.take(end as int)),
{
    let mut start: usize = end;
    while start > 0 && path[start - 1] != '/'
        invariant
            start <= end <= path@.len(),
            component_start(path@.take(start as int)) == component_start(path@.take(end as int)),
        decreases start,
    {
        assert(path@.take(start as int).drop_last() =~= path@.take(start - 1));
        start = start - 1;
    }
    start
}

/// The bounds of the final component of `path`, as `file_name_of` picks it.
fn file_name_bounds(path: &Vec<char>) -> (r: (usize, usize))
    ensures
        r.0 <= r.1 <= path@.len(),
        path@.subrange(r.0 as int, r.1 as int) == file_name_of(path@),
{
    let mut end: usize = path.len();
    assert(path@.take(end as int) =~= path@);
    loop
        invariant
            end <= path@.len(),
            file_name_of(path@.take(end as int)) == file_name_of(path@),
        decreases end,
    {
        let ghost cur = path@.take(end as int);
        if end == 0 {
            assert(path@.subrange(0, 0) =~= Seq::<char>::empty());
            return (0, 0);
        }
        if path[end - 1] == '/' {
            assert(cur.drop_last() =~= path@.take(end - 1));
            end = end - 1;
        } else {
            let start = component_start_at(path, end);
            proof {
                lemma_component_start(cur);
                assert(cur.skip(start as int) =~= path@.subrange(start as int, end as int));
            }
            let len = end - start;
            let dot = path[start] == '.';
            if len == 2 && dot && path[start + 1] == '.' {
                assert(cur.skip(start as int) =~= seq!['.', '.']);
                assert(path@.subrange(0, 0) =~= Seq::<char>::empty());
                return (0, 0);
            } else if len == 1 && dot {
                assert(cur.skip(start as int) =~= seq!['.']);
                assert(cur.drop_last() =~= path@.take(start as int));
                end = start;
            } else {
                proof {
                    let name = cur.skip(start as int);
                    if name == seq!['.', '.'] {
                        assert(name.len() == 2);
                        assert(name[0] == '.' && name[1] == '.');
                    }
                    if name == seq!['.'] {
                        assert(name.len() == 1);
                        assert(name[0] == '.');
                    }
                }
                return (start, end);
            }
        }
    }
}

/// The final component of `path`, or the empty text where it has none.
pub fn file_name(path: &str) -> (r: String)
    ensures
        r@ == file_name_of(path@),
{
    let chars = chars_of(path);
    let (start, end) = file_name_bounds(&chars);
    let mut out = String::new();
    out.append(path.substring_char(start, end));
    assert(out@ =~= file_name_of(path@));
    out
}

} // verus!
