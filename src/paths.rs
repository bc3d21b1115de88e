//! Textual path arithmetic on '/'-separated paths.

use vstd::prelude::*;
use crate::text::{sub_vec, push_all};

verus! {

/// The path without its leading separators: an absolute path read as relative.
pub open spec fn strip_root(p: Seq<char>) -> Seq<char>
    decreases p.len(),
{
    if p.len() > 0 && p[0] == '/' {
        strip_root(p.drop_first())
    } else {
        p
    }
}

/// The path without trailing separators, keeping a lone root separator.
pub open spec fn trim_trailing(p: Seq<char>) -> Seq<char>
    decreases p.len(),
{
    if p.len() > 1 && p.last() == '/' {
        trim_trailing(p.drop_last())
    } else {
        p
    }
}

/// The index of the last separator of `p`, or -1 when it holds none.
pub open spec fn last_sep(p: Seq<char>) -> int
    decreases p.len(),
{
    if p.len() == 0 {
        -1
    } else if p.last() == '/' {
        p.len() - 1
    } else {
        last_sep(p.drop_last())
    }
}

/// `b` appended to `a` with one separator between them where needed.
pub open spec fn join_path(a: Seq<char>, b: Seq<char>) -> Seq<char> {
    if b.len() == 0 {
        a
    } else if a.len() == 0 {
        b
    } else if a.last() == '/' {
        a + b
    } else {
        a + seq!['/'] + b
    }
}

/// The directory that holds the last component of `p`: empty for a single
/// relative component, the root for a component right under it.
pub open spec fn parent_of(p: Seq<char>) -> Seq<char> {
    let q = trim_trailing(p);
    let k = last_sep(q);
    if k < 0 {
        Seq::empty()
    } else if k == 0 {
        seq!['/']
    } else {
        q.subrange(0, k)
    }
}

/// The last component of `p`.
pub open spec fn file_name_of(p: Seq<char>) -> Seq<char> {
    let q = trim_trailing(p);
    q.subrange(last_sep(q) + 1, q.len() as int)
}

/// `p` read below `root`: `p` without its leading separators, joined onto `root`.
pub open spec fn rooted_at(root: Seq<char>, p: Seq<char>) -> Seq<char> {
    join_path(root, strip_root(p))
}

/// The non-empty '/'-separated components of `p`, in order.
pub open spec fn components(p: Seq<char>) -> Seq<Seq<char>>
    decreases p.len(),
{
    let k = last_sep(p);
    if p.len() == 0 {
        Seq::empty()
    } else if k < 0 || k >= p.len() {
        seq![p]
    } else {
        let head = components(p.subrange(0, k));
        let tail = p.subrange(k + 1, p.len() as int);
        if tail.len() == 0 {
            head
        } else {
            head.push(tail)
        }
    }
}

/// The parent-directory component `..`.
pub open spec fn dot_dot() -> Seq<char> {
    seq!['.', '.']
}

/// No component is `.` or `..`.
pub open spec fn no_dots(cs: Seq<Seq<char>>) -> bool {
    forall|i: int| 0 <= i < cs.len() ==> #[trigger] cs[i] != dot_dot() && cs[i] != seq!['.']
}

/// `p` holds no separator.
pub open spec fn no_sep(p: Seq<char>) -> bool {
    forall|i: int| 0 <= i < p.len() ==> #[trigger] p[i] != '/'
}

/// The last separator lies inside the path and none follows it.
pub proof fn lemma_last_sep(p: Seq<char>)
    ensures
        -1 <= last_sep(p) < p.len(),
        last_sep(p) >= 0 ==> p[last_sep(p)] == '/',
        forall|i: int| last_sep(p) < i < p.len() ==> p[i] != '/',
    decreases p.len(),
{
    if p.len() > 0 && p.last() != '/' {
        lemma_last_sep(p.drop_last());
        assert forall|i: int| last_sep(p) < i < p.len() implies p[i] != '/' by {
            if i < p.len() - 1 {
                assert(p.drop_last()[i] == p[i]);
            }
        }
    }
}

/// Characters without a separator do not move the last separator.
pub proof fn lemma_last_sep_concat(a: Seq<char>, b: Seq<char>)
    requires
        no_sep(b),
    ensures
        last_sep(a + b) == last_sep(a),
    decreases b.len(),
{
    if b.len() == 0 {
        assert(a + b =~= a);
    } else {
        assert((a + b).drop_last() =~= a + b.drop_last());
        assert((a + b).last() == b[b.len() - 1]);
        lemma_last_sep_concat(a, b.drop_last());
    }
}

/// A last component holds no separator.
pub proof fn lemma_file_name_no_sep(p: Seq<char>)
    ensures
        no_sep(file_name_of(p)),
{
    let q = trim_trailing(p);
    lemma_last_sep(q);
    let f = file_name_of(p);
    assert forall|i: int| 0 <= i < f.len() implies #[trigger] f[i] != '/' by {
        assert(f[i] == q[last_sep(q) + 1 + i]);
    }
}

/// Appending a component adds it to the components.
pub proof fn lemma_components_join_name(d: Seq<char>, name: Seq<char>)
    requires
        name.len() > 0,
        no_sep(name),
    ensures
        components(join_path(d, name)) == components(d).push(name),
{
    lemma_last_sep(name);
    if name.len() > 0 && last_sep(name) >= 0 {
        assert(name[last_sep(name)] == '/');
    }
    if d.len() == 0 {
        assert(join_path(d, name) == name);
        assert(components(name) =~= components(d).push(name));
    } else if d.last() == '/' {
        let j = d + name;
        lemma_last_sep_concat(d, name);
        assert(last_sep(d) == d.len() - 1);
        assert(j.subrange(0, d.len() - 1) =~= d.subrange(0, d.len() - 1));
        assert(j.subrange(d.len() as int, j.len() as int) =~= name);
        assert(d.subrange(d.len() as int, d.len() as int).len() == 0);
    } else {
        let ds = d + seq!['/'];
        let j = ds + name;
        assert(join_path(d, name) =~= j);
        lemma_last_sep_concat(ds, name);
        assert(ds.last() == '/');
        assert(last_sep(ds) == d.len());
        assert(j.subrange(0, d.len() as int) =~= d);
        assert(j.subrange(d.len() as int + 1, j.len() as int) =~= name);
    }
}

/// Trailing separators add no component.
pub proof fn lemma_components_trim(p: Seq<char>)
    ensures
        components(trim_trailing(p)) == components(p),
    decreases p.len(),
{
    if p.len() > 1 && p.last() == '/' {
        lemma_components_trim(p.drop_last());
        assert(last_sep(p) == p.len() - 1);
        assert(p.subrange(0, p.len() - 1) =~= p.drop_last());
    }
}

/// Trimming keeps the first character.
pub proof fn lemma_trim_first(p: Seq<char>)
    requires
        p.len() > 0,
    ensures
        trim_trailing(p).len() > 0,
        trim_trailing(p)[0] == p[0],
    decreases p.len(),
{
    if p.len() > 1 && p.last() == '/' {
        lemma_trim_first(p.drop_last());
    }
}

/// The components of a path are those of its directory followed by its last component.
pub proof fn lemma_components_split(p: Seq<char>)
    requires
        file_name_of(p).len() > 0,
    ensures
        components(p) == components(parent_of(p)).push(file_name_of(p)),
{
    let t = trim_trailing(p);
    lemma_components_trim(p);
    lemma_last_sep(t);
    let k = last_sep(t);
    if k < 0 {
        assert(t.subrange(0, t.len() as int) =~= t);
        assert(components(t) =~= Seq::<Seq<char>>::empty().push(t));
    } else if k == 0 {
        let root = seq!['/'];
        assert(last_sep(root) == 0);
        assert(root.subrange(0, 0).len() == 0);
        assert(components(root.subrange(0, 0)) =~= Seq::<Seq<char>>::empty());
        assert(root.subrange(1, 1).len() == 0);
        assert(components(root) =~= Seq::<Seq<char>>::empty());
        assert(components(t.subrange(0, 0)) =~= Seq::<Seq<char>>::empty());
    }
}

/// A clean path has a clean directory.
pub proof fn lemma_parent_no_dots(p: Seq<char>)
    requires
        file_name_of(p).len() > 0,
        no_dots(components(p)),
    ensures
        no_dots(components(parent_of(p))),
{
    lemma_components_split(p);
    let cp = components(parent_of(p));
    assert forall|i: int| 0 <= i < cp.len() implies #[trigger] cp[i] != dot_dot() && cp[i] != seq!['.'] by {
        assert(components(p)[i] == cp[i]);
    }
}

/// A path placed below an absolute root is absolute.
pub proof fn lemma_join_absolute(a: Seq<char>, b: Seq<char>)
    requires
        a.len() > 0,
        a[0] == '/',
    ensures
        join_path(a, b).len() > 0,
        join_path(a, b)[0] == '/',
{
}

/// The directory of an absolute path is absolute.
pub proof fn lemma_parent_absolute(p: Seq<char>)
    requires
        p.len() > 0,
        p[0] == '/',
    ensures
        parent_of(p).len() > 0,
        parent_of(p)[0] == '/',
{
    let t = trim_trailing(p);
    lemma_trim_first(p);
    lemma_last_sep(t);
}

pub fn strip_root_exec(p: &Vec<char>) -> (r: Vec<char>)
    ensures
        r@ == strip_root(p@),
{
    let mut i: usize = 0;
    assert(p@.skip(0) =~= p@);
    while i < p.len() && p[i] == '/'
        invariant
            i <= p@.len(),
            strip_root(p@) == strip_root(p@.skip(i as int)),
        decreases p@.len() - i,
    {
        assert(p@.skip(i as int).drop_first() =~= p@.skip(i + 1));
        i += 1;
    }
    sub_vec(p, i, p.len())
}

pub fn trim_trailing_exec(p: &Vec<char>) -> (r: Vec<char>)
    ensures
        r@ == trim_trailing(p@),
{
    let mut n: usize = p.len();
    assert(p@.take(n as int) =~= p@);
    while n > 1 && p[n - 1] == '/'
        invariant
            n <= p@.len(),
            trim_trailing(p@) == trim_trailing(p@.take(n as int)),
        decreases n,
    {
        assert(p@.take(n as int).drop_last() =~= p@.take(n - 1));
        n -= 1;
    }
    sub_vec(p, 0, n)
}

/// The index of the last separator of `p`, if it holds one.
pub fn last_sep_exec(p: &Vec<char>) -> (r: Option<usize>)
    ensures
        match r {
            Some(k) => last_sep(p@) == k as int && k < p@.len() && p@[k as int] == '/',
            None => last_sep(p@) == -1,
        },
{
    let mut n: usize = p.len();
    assert(p@.take(n as int) =~= p@);
    while n > 0 && p[n - 1] != '/'
        invariant
            n <= p@.len(),
            last_sep(p@) == last_sep(p@.take(n as int)),
        decreases n,
    {
        assert(p@.take(n as int).drop_last() =~= p@.take(n - 1));
        n -= 1;
    }
    if n == 0 {
        assert(p@.take(0) =~= Seq::<char>::empty());
        None
    } else {
        Some(n - 1)
    }
}

pub fn join_path_exec(a: &Vec<char>, b: &Vec<char>) -> (r: Vec<char>)
    ensures
        r@ == join_path(a@, b@),
{
    if b.len() == 0 {
        return a.clone();
    }
    if a.len() == 0 {
        return b.clone();
    }
    let mut r = a.clone();
    if a[a.len() - 1] != '/' {
        r.push('/');
    }
    push_all(&mut r, b);
    r
}

pub fn parent_of_exec(p: &Vec<char>) -> (r: Vec<char>)
    ensures
        r@ == parent_of(p@),
{
    let q = trim_trailing_exec(p);
    match last_sep_exec(&q) {
        None => Vec::new(),
        Some(k) => {
            if k == 0 {
                let mut r: Vec<char> = Vec::new();
                r.push('/');
                assert(r@ =~= seq!['/']);
                r
            } else {
                sub_vec(&q, 0, k)
            }
        },
    }
}

pub fn file_name_of_exec(p: &Vec<char>) -> (r: Vec<char>)
    ensures
        r@ == file_name_of(p@),
{
    let q = trim_trailing_exec(p);
    let n: usize = q.len();
    match last_sep_exec(&q) {
        None => sub_vec(&q, 0, n),
        Some(k) => sub_vec(&q, k + 1, n),
    }
}

} // verus!
