//! Lexical operations on paths written as strings, with `/` as separator.
use vstd::prelude::*;
use vstd::string::*;

verus! {

/// `name` appended to `base`, as `Path::join` does: an absolute `name`
/// replaces `base`, and a separator is put between the two where `base`
/// does not already end with one.
pub open spec fn joined(base: Seq<char>, name: Seq<char>) -> Seq<char> {
    if name.len() > 0 && name[0] == '/' {
        name
    } else if base.len() == 0 {
        name
    } else if base.last() == '/' {
        base + name
    } else {
        base + seq!['/'] + name
    }
}

/// `s` without its trailing separators; a lone root `/` is kept.
pub open spec fn trim_trailing(s: Seq<char>) -> Seq<char>
    decreases s.len(),
{
    if s.len() > 1 && s.last() == '/' {
        trim_trailing(s.drop_last())
    } else {
        s
    }
}

/// Index of the last separator of `s`, or -1 where it has none.
pub open spec fn last_sep(s: Seq<char>) -> int
    decreases s.len(),
{
    if s.len() == 0 {
        -1
    } else if s.last() == '/' {
        s.len() - 1
    } else {
        last_sep(s.drop_last())
    }
}

/// The directory that holds `s`: `None` for the root and for a path with
/// no separator.
pub open spec fn parent_of(s: Seq<char>) -> Option<Seq<char>> {
    let t = trim_trailing(s);
    let k = last_sep(t);
    if k < 0 {
        None
    } else if k == 0 {
        if t.len() > 1 {
            Some(seq!['/'])
        } else {
            None
        }
    } else {
        Some(t.subrange(0, k))
    }
}

proof fn lemma_last_sep_bounds(s: Seq<char>)
    ensures
        -1 <= last_sep(s) < s.len(),
        last_sep(s) >= 0 ==> s[last_sep(s)] == '/',
    decreases s.len(),
{
    if s.len() > 0 && s.last() != '/' {
        lemma_last_sep_bounds(s.drop_last());
    }
}

proof fn lemma_trim_trailing_len(s: Seq<char>)
    ensures
        trim_trailing(s).len() <= s.len(),
        s.len() > 0 ==> trim_trailing(s).len() > 0,
    decreases s.len(),
{
    if s.len() > 1 && s.last() == '/' {
        lemma_trim_trailing_len(s.drop_last());
    }
}

/// Joins `name` onto `base` (see `joined`).
pub fn join_path(base: &str, name: &str) -> (r: String)
    ensures
        r@ == joined(base@, name@),
{
    let nl = name.unicode_len();
    let bl = base.unicode_len();
    if nl > 0 && name.get_char(0) == '/' {
        return String::from_str(name);
    }
    if bl == 0 {
        return String::from_str(name);
    }
    let mut r = String::from_str(base);
    if base.get_char(bl - 1) != '/' {
        proof {
            reveal_strlit("/");
        }
        r.append("/");
    }
    r.append(name);
    r
}

/// The parent directory of `p` (see `parent_of`).
pub fn parent_path(p: &str) -> (r: Option<String>)
    ensures
        match r {
            Some(q) => parent_of(p@) == Some(q@),
            None => parent_of(p@) is None,
        },
{
    let len = p.unicode_len();
    let mut n: usize = len;
    assert(p@.subrange(0, len as int) =~= p@);
    while n > 1 && p.get_char(n - 1) == '/'
        invariant
            n <= len,
            len == p@.len(),
            len > 0 ==> n > 0,
            trim_trailing(p@) == trim_trailing(p@.subrange(0, n as int)),
        decreases n,
    {
        assert(p@.subrange(0, n as int).drop_last() =~= p@.subrange(0, n - 1));
        n = n - 1;
    }
    let t = p.substring_char(0, n);
    assert(t@ == trim_trailing(p@));
    proof {
        lemma_trim_trailing_len(p@);
    }
    let mut i: usize = n;
    assert(t@.subrange(0, n as int) =~= t@);
    while i > 0 && t.get_char(i - 1) != '/'
        invariant
            i <= n,
            n == t@.len(),
            last_sep(t@) == last_sep(t@.subrange(0, i as int)),
        decreases i,
    {
        assert(t@.subrange(0, i as int).drop_last() =~= t@.subrange(0, i - 1));
        i = i - 1;
    }
    proof {
        lemma_last_sep_bounds(t@);
        if i > 0 {
            assert(last_sep(t@.subrange(0, i as int)) == i - 1);
        } else {
            assert(t@.subrange(0, 0) =~= Seq::<char>::empty());
        }
    }
    if i == 0 {
        return None;
    }
    if i == 1 {
        if n > 1 {
            proof {
                reveal_strlit("/");
            }
            let root = String::from_str("/");
            assert(root@ =~= seq!['/']);
            return Some(root);
        }
        return None;
    }
    Some(String::from_str(t.substring_char(0, i - 1)))
}

/// Whether `seg`, a run of characters between separators, names a
/// component: empty runs never do, and `.` does only at the very start.
pub open spec fn keeps_part(seg: Seq<char>, first: bool) -> bool {
    seg.len() > 0 && (first || seg != seq!['.'])
}

/// The state of a scan of a path one character at a time: the components
/// so far, the run being read, and whether no separator has been met yet.
pub open spec fn split_step(st: (Seq<Seq<char>>, Seq<char>, bool), c: char) -> (
    Seq<Seq<char>>,
    Seq<char>,
    bool,
) {
    if c == '/' {
        (if keeps_part(st.1, st.2) {
            st.0.push(st.1)
        } else {
            st.0
        }, Seq::empty(), false)
    } else {
        (st.0, st.1.push(c), st.2)
    }
}

/// The scan state after all of `s`.
pub open spec fn split_state(s: Seq<char>) -> (Seq<Seq<char>>, Seq<char>, bool)
    decreases s.len(),
{
    if s.len() == 0 {
        (Seq::empty(), Seq::empty(), true)
    } else {
        split_step(split_state(s.drop_last()), s.last())
    }
}

/// The named components of `s`, as `Path::components` gives them: repeated
/// and trailing separators and `.` past the start are not components.
pub open spec fn path_parts(s: Seq<char>) -> Seq<Seq<char>> {
    let st = split_state(s);
    if keeps_part(st.1, st.2) {
        st.0.push(st.1)
    } else {
        st.0
    }
}

/// Whether `a` and `b` denote the same path component by component, as
/// `Path`'s `==` compares them.
pub open spec fn same_path(a: Seq<char>, b: Seq<char>) -> bool {
    (a.len() > 0 && a[0] == '/') == (b.len() > 0 && b[0] == '/') && path_parts(a) == path_parts(
        b,
    )
}

/// Whether the run `seg` names a component (see `keeps_part`).
fn keeps_part_exec(seg: &str, first: bool) -> (r: bool)
    ensures
        r == keeps_part(seg@, first),
{
    let n = seg.unicode_len();
    if n == 0 {
        return false;
    }
    if first {
        return true;
    }
    let dot = n == 1 && seg.get_char(0) == '.';
    assert(dot <==> seg@ =~= seq!['.']);
    !dot
}

/// The named components of `s` (see `path_parts`).
pub fn path_components(s: &str) -> (r: Vec<String>)
    ensures
        r@.map_values(|p: String| p@) == path_parts(s@),
{
    let n = s.unicode_len();
    let mut parts: Vec<String> = Vec::new();
    let mut start: usize = 0;
    let mut first = true;
    let mut i: usize = 0;
    assert(s@.take(0) =~= Seq::<char>::empty());
    assert(s@.subrange(0, 0) =~= Seq::<char>::empty());
    while i < n
        invariant
            n == s@.len(),
            start <= i <= n,
            split_state(s@.take(i as int)) == (
                parts@.map_values(|p: String| p@),
                s@.subrange(start as int, i as int),
                first,
            ),
        decreases n - i,
    {
        assert(s@.take(i + 1).drop_last() =~= s@.take(i as int));
        assert(s@.take(i + 1).last() == s@[i as int]);
        if s.get_char(i) == '/' {
            let seg = s.substring_char(start, i);
            if keeps_part_exec(seg, first) {
                parts.push(String::from_str(seg));
                assert(parts@.map_values(|p: String| p@) =~= split_state(s@.take(i + 1)).0);
            }
            start = i + 1;
            first = false;
            assert(s@.subrange(start as int, i + 1) =~= Seq::<char>::empty());
        } else {
            assert(s@.subrange(start as int, i + 1) =~= s@.subrange(start as int, i as int).push(
                s@[i as int],
            ));
        }
        i = i + 1;
    }
    assert(s@.take(n as int) =~= s@);
    let seg = s.substring_char(start, n);
    if keeps_part_exec(seg, first) {
        parts.push(String::from_str(seg));
        assert(parts@.map_values(|p: String| p@) =~= path_parts(s@));
    }
    parts
}

/// Whether `a` and `b` denote the same path (see `same_path`).
pub fn same_path_exec(a: &str, b: &str) -> (r: bool)
    ensures
        r == same_path(a@, b@),
{
    let ra = a.unicode_len() > 0 && a.get_char(0) == '/';
    let rb = b.unicode_len() > 0 && b.get_char(0) == '/';
    if ra != rb {
        assert(!same_path(a@, b@));
        return false;
    }
    let pa = path_components(a);
    let pb = path_components(b);
    if pa.len() != pb.len() {
        assert(path_parts(a@).len() != path_parts(b@).len());
        return false;
    }
    let mut i: usize = 0;
    while i < pa.len()
        invariant
            i <= pa.len(),
            pa.len() == pb.len(),
            pa@.map_values(|p: String| p@) == path_parts(a@),
            pb@.map_values(|p: String| p@) == path_parts(b@),
            forall|j: int| 0 <= j < i ==> pa@[j]@ == pb@[j]@,
        decreases pa.len() - i,
    {
        if !(pa[i] == pb[i]) {
            assert(path_parts(a@)[i as int] != path_parts(b@)[i as int]);
            return false;
        }
        i = i + 1;
    }
    assert(pa@.map_values(|p: String| p@) =~= pb@.map_values(|p: String| p@));
    true
}

} // verus!
