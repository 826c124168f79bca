use vstd::prelude::*;
use vstd::string::StringExecFns;

verus! {

/// A single component of a relative entry path: non-empty, not `.` or `..`,
/// and free of the `/` separator.
pub open spec fn is_valid_segment(s: Seq<char>) -> bool {
    &&& s.len() > 0
    &&& s != seq!['.']
    &&& s != seq!['.', '.']
    &&& !s.contains('/')
}

/// A relative entry path, as its list of components: at least one component,
/// each of them valid.
pub open spec fn is_valid_relative(p: Seq<Seq<char>>) -> bool {
    &&& p.len() > 0
    &&& forall|i: int| 0 <= i < p.len() ==> is_valid_segment(#[trigger] p[i])
}

/// The components of a path joined by forward slashes.
pub open spec fn join_segments(p: Seq<Seq<char>>) -> Seq<char>
    decreases p.len(),
{
    if p.len() == 0 {
        Seq::empty()
    } else if p.len() == 1 {
        p[0]
    } else {
        join_segments(p.drop_last()) + seq!['/'] + p.last()
    }
}

/// The character sequences held by a list of strings.
pub open spec fn segments_view(v: Seq<String>) -> Seq<Seq<char>> {
    v.map_values(|s: String| s@)
}

/// Tells whether `s` can stand as one component of an entry path.
pub fn segment_is_valid(s: &str) -> (r: bool)
    ensures
        r == is_valid_segment(s@),
{
    let mut count: usize = 0;
    let mut all_dots = true;
    let mut has_slash = false;
    for c in it: s.chars()
        invariant
            it.seq() == s@,
            count == (if it.index() < 3 { it.index() } else { 3 }),
            all_dots <==> (forall|j: int| 0 <= j < it.index() ==> s@[j] == '.'),
            has_slash <==> (exists|j: int| 0 <= j < it.index() && s@[j] == '/'),
    {
        proof {
            assert(s@[it.index() as int] == c);
        }
        if c != '.' {
            all_dots = false;
        }
        if c == '/' {
            has_slash = true;
        }
        if count < 3 {
            count = count + 1;
        }
    }
    proof {
        if count == 1 && all_dots {
            assert(s@ =~= seq!['.']);
        }
        if count == 2 && all_dots {
            assert(s@ =~= seq!['.', '.']);
        }
        if count == 3 {
            assert(s@.len() >= 3);
        }
    }
    count > 0 && !(all_dots && count <= 2) && !has_slash
}

} // verus!

verus! {

/// Joins the components of a path with forward slashes.
pub fn join_path(path: &Vec<String>) -> (r: String)
    ensures
        r@ == join_segments(segments_view(path@)),
{
    let mut r = String::new();
    let mut i: usize = 0;
    while i < path.len()
        invariant
            0 <= i <= path@.len(),
            r@ == join_segments(segments_view(path@).take(i as int)),
        decreases path@.len() - i,
    {
        proof {
            reveal_strlit("/");
            let p = segments_view(path@);
            assert(p.take(i as int + 1).drop_last() =~= p.take(i as int));
            if i == 0 {
                assert(p.take(1) =~= seq![p[0]]);
            }
        }
        if i > 0 {
            r.append("/");
        }
        r.append(path[i].as_str());
        i = i + 1;
    }
    proof {
        assert(segments_view(path@).take(path@.len() as int) =~= segments_view(path@));
    }
    r
}

} // verus!

verus! {

/// The stored name of a valid relative path is relative: it is not empty and
/// neither starts nor ends with a separator.
pub proof fn lemma_joined_name_is_relative(p: Seq<Seq<char>>)
    requires
        is_valid_relative(p),
    ensures
        join_segments(p).len() > 0,
        join_segments(p)[0] != '/',
        join_segments(p).last() != '/',
    decreases p.len(),
{
    if p.len() > 1 {
        let q = p.drop_last();
        assert(is_valid_relative(q)) by {
            assert forall|i: int| 0 <= i < q.len() implies is_valid_segment(#[trigger] q[i]) by {
                assert(q[i] == p[i]);
            }
        }
        lemma_joined_name_is_relative(q);
        let j = join_segments(p);
        assert(j == join_segments(q) + seq!['/'] + p.last());
        assert(j[0] == join_segments(q)[0]);
        assert(is_valid_segment(p[p.len() - 1]));
        assert(p.last().len() > 0);
        assert(j.last() == p.last().last());
        assert(!p.last().contains('/'));
        assert(p.last()[p.last().len() - 1] == p.last().last());
    } else {
        assert(is_valid_segment(p[0]));
        assert(p[0][0] != '/') by {
            assert(!p[0].contains('/'));
        }
        assert(p[0][p[0].len() - 1] != '/') by {
            assert(!p[0].contains('/'));
        }
    }
}

} // verus!

verus! {

/// The components of a stored name, read between its `/` separators.
pub open spec fn split_name(s: Seq<char>) -> Seq<Seq<char>>
    decreases s.len(),
{
    if s.len() == 0 {
        seq![Seq::empty()]
    } else {
        let prev = split_name(s.drop_last());
        if s.last() == '/' {
            prev.push(Seq::empty())
        } else {
            prev.update(prev.len() - 1, prev.last().push(s.last()))
        }
    }
}

proof fn lemma_split_len(s: Seq<char>)
    ensures
        split_name(s).len() >= 1,
    decreases s.len(),
{
    if s.len() > 0 {
        lemma_split_len(s.drop_last());
    }
}

/// A name without separators is read back as itself.
proof fn lemma_split_plain(x: Seq<char>)
    requires
        !x.contains('/'),
    ensures
        split_name(x) == seq![x],
    decreases x.len(),
{
    if x.len() > 0 {
        let y = x.drop_last();
        assert(!y.contains('/')) by {
            if y.contains('/') {
                let i = choose|i: int| 0 <= i < y.len() && y[i] == '/';
                assert(x[i] == '/');
            }
        }
        lemma_split_plain(y);
        assert(x.last() != '/') by {
            assert(x[x.len() - 1] == x.last());
        }
        assert(y.push(x.last()) =~= x);
        assert(split_name(x) =~= seq![y].update(0, y.push(x.last())));
        assert(seq![y].update(0, y.push(x.last())) =~= seq![x]);
    } else {
        assert(x =~= Seq::<char>::empty());
    }
}

/// Appending a separator and a name without separators adds one component.
proof fn lemma_split_append(a: Seq<char>, x: Seq<char>)
    requires
        !x.contains('/'),
    ensures
        split_name(a + seq!['/'] + x) == split_name(a).push(x),
    decreases x.len(),
{
    if x.len() == 0 {
        assert(a + seq!['/'] + x =~= a.push('/'));
        assert((a.push('/')).drop_last() =~= a);
        assert((a.push('/')).last() == '/');
        assert(x =~= Seq::<char>::empty());
        assert(split_name(a.push('/')) == split_name(a).push(Seq::empty()));
    } else {
        let y = x.drop_last();
        assert(!y.contains('/')) by {
            if y.contains('/') {
                let i = choose|i: int| 0 <= i < y.len() && y[i] == '/';
                assert(x[i] == '/');
            }
        }
        lemma_split_append(a, y);
        let s = a + seq!['/'] + x;
        assert(s.drop_last() =~= a + seq!['/'] + y);
        assert(s.last() == x.last());
        assert(x.last() != '/') by {
            assert(x[x.len() - 1] == x.last());
        }
        lemma_split_len(a);
        assert(y.push(x.last()) =~= x);
        assert(split_name(s) =~= split_name(a).push(x));
    }
}

/// Resolving a stored name gives back the path it was made from: reading the
/// name between its separators yields exactly the path's components.
pub proof fn lemma_split_join(p: Seq<Seq<char>>)
    requires
        is_valid_relative(p),
    ensures
        split_name(join_segments(p)) == p,
    decreases p.len(),
{
    assert(is_valid_segment(p[p.len() - 1]));
    if p.len() == 1 {
        lemma_split_plain(p[0]);
        assert(seq![p[0]] =~= p);
    } else {
        let q = p.drop_last();
        assert(is_valid_relative(q)) by {
            assert forall|i: int| 0 <= i < q.len() implies is_valid_segment(#[trigger] q[i]) by {
                assert(q[i] == p[i]);
            }
        }
        lemma_split_join(q);
        lemma_split_append(join_segments(q), p.last());
        assert(q.push(p.last()) =~= p);
    }
}

} // verus!
