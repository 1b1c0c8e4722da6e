//! Paths as `std::path::Path` reads them on Unix: a sequence of components
//! (the root, a leading `.`, `..`, or a name), compared and ordered
//! component by component.

use vstd::prelude::*;
use crate::text::{chars_equal, split_chars, split_on};

verus! {

/// Rank of the root component.
pub const ROOT: u8 = 0;

/// Rank of a `.` that starts a relative path.
pub const CURRENT: u8 = 1;

/// Rank of a `..` component.
pub const PARENT: u8 = 2;

/// Rank of a named component.
pub const NAME: u8 = 3;

/// A piece between separators that is a component of its own: neither
/// empty (from doubled or trailing separators) nor `.`.
pub open spec fn is_component(piece: Seq<char>) -> bool {
    piece.len() > 0 && piece != seq!['.']
}

/// The components among `pieces`, each as its rank and, for a name, its
/// text.
pub open spec fn components_of(pieces: Seq<Seq<char>>) -> Seq<(u8, Seq<char>)>
    decreases pieces.len(),
{
    if pieces.len() == 0 {
        Seq::empty()
    } else {
        let rest = components_of(pieces.drop_first());
        let p = pieces[0];
        if !is_component(p) {
            rest
        } else if p == seq!['.', '.'] {
            seq![(PARENT, Seq::<char>::empty())] + rest
        } else {
            seq![(NAME, p)] + rest
        }
    }
}

/// The components of a path, like `Path::components`: the root for an
/// absolute path, `.` only where it starts a relative one, then `..` and
/// the names; repeated and trailing separators do not count.
pub open spec fn path_components(path: Seq<char>) -> Seq<(u8, Seq<char>)> {
    let pieces = split_on(path, '/');
    if path.len() > 0 && path[0] == '/' {
        seq![(ROOT, Seq::<char>::empty())] + components_of(pieces)
    } else if pieces.len() > 0 && pieces[0] == seq!['.'] {
        seq![(CURRENT, Seq::<char>::empty())] + components_of(pieces)
    } else {
        components_of(pieces)
    }
}

/// Text order: character by character, a proper prefix first.
pub open spec fn chars_less(a: Seq<char>, b: Seq<char>) -> bool
    decreases a.len(),
{
    if b.len() == 0 {
        false
    } else if a.len() == 0 {
        true
    } else if a[0] != b[0] {
        (a[0] as int) < (b[0] as int)
    } else {
        chars_less(a.drop_first(), b.drop_first())
    }
}

/// Component order: by rank, then names by text.
pub open spec fn component_less(x: (u8, Seq<char>), y: (u8, Seq<char>)) -> bool {
    x.0 < y.0 || (x.0 == y.0 && chars_less(x.1, y.1))
}

/// Component sequences in order: component by component, a proper prefix
/// first.
pub open spec fn components_less(a: Seq<(u8, Seq<char>)>, b: Seq<(u8, Seq<char>)>) -> bool
    decreases a.len(),
{
    if b.len() == 0 {
        false
    } else if a.len() == 0 {
        true
    } else if a[0] != b[0] {
        component_less(a[0], b[0])
    } else {
        components_less(a.drop_first(), b.drop_first())
    }
}

/// `Path` order: `p` sorts before `q`.
pub closed spec fn path_less(p: Seq<char>, q: Seq<char>) -> bool {
    components_less(path_components(p), path_components(q))
}

/// `Path` equality: the same components.
pub closed spec fn same_path(p: Seq<char>, q: Seq<char>) -> bool {
    path_components(p) == path_components(q)
}

pub proof fn lemma_chars_order(a: Seq<char>, b: Seq<char>, c: Seq<char>)
    ensures
        !chars_less(a, a),
        chars_less(a, b) ==> !chars_less(b, a),
        a != b ==> chars_less(a, b) || chars_less(b, a),
        chars_less(a, b) && chars_less(b, c) ==> chars_less(a, c),
    decreases a.len(),
{
    if a.len() > 0 && b.len() > 0 && c.len() > 0 {
        lemma_chars_order(a.drop_first(), b.drop_first(), c.drop_first());
    } else if a.len() > 0 && b.len() > 0 {
        lemma_chars_order(a.drop_first(), b.drop_first(), b.drop_first());
    } else if a.len() > 0 {
        lemma_chars_order(a.drop_first(), a.drop_first(), a.drop_first());
    }
    if a.len() > 0 && b.len() > 0 && a != b && a[0] == b[0] {
        assert(a.drop_first() != b.drop_first()) by {
            if a.drop_first() == b.drop_first() {
                assert(a =~= seq![a[0]] + a.drop_first());
                assert(b =~= seq![b[0]] + b.drop_first());
            }
        }
    }
    if a.len() > 0 && b.len() > 0 && a[0] != b[0] {
        assert((a[0] as int) != (b[0] as int));
    }
    if a.len() == 0 && b.len() == 0 {
        assert(a =~= b);
    }
}

proof fn lemma_component_order(x: (u8, Seq<char>), y: (u8, Seq<char>), z: (u8, Seq<char>))
    ensures
        !component_less(x, x),
        component_less(x, y) ==> !component_less(y, x),
        x != y ==> component_less(x, y) || component_less(y, x),
        component_less(x, y) && component_less(y, z) ==> component_less(x, z),
{
    lemma_chars_order(x.1, y.1, z.1);
}

pub proof fn lemma_components_order(
    a: Seq<(u8, Seq<char>)>,
    b: Seq<(u8, Seq<char>)>,
    c: Seq<(u8, Seq<char>)>,
)
    ensures
        !components_less(a, a),
        components_less(a, b) ==> !components_less(b, a),
        a != b ==> components_less(a, b) || components_less(b, a),
        components_less(a, b) && components_less(b, c) ==> components_less(a, c),
    decreases a.len(),
{
    if a.len() > 0 && b.len() > 0 && c.len() > 0 {
        lemma_components_order(a.drop_first(), b.drop_first(), c.drop_first());
        lemma_component_order(a[0], b[0], c[0]);
    } else if a.len() > 0 && b.len() > 0 {
        lemma_components_order(a.drop_first(), b.drop_first(), b.drop_first());
        lemma_component_order(a[0], b[0], b[0]);
    } else if a.len() > 0 {
        lemma_components_order(a.drop_first(), a.drop_first(), a.drop_first());
        lemma_component_order(a[0], a[0], a[0]);
    }
    if a.len() > 0 && b.len() > 0 && a != b && a[0] == b[0] {
        assert(a.drop_first() != b.drop_first()) by {
            if a.drop_first() == b.drop_first() {
                assert(a =~= seq![a[0]] + a.drop_first());
                assert(b =~= seq![b[0]] + b.drop_first());
            }
        }
    }
    if a.len() == 0 && b.len() == 0 {
        assert(a =~= b);
    }
}

/// `Path` order and equality go by the components: `p` sorts before `q`
/// when its components come first, component by component, and the two
/// are the same path when their components are the same.
pub proof fn lemma_path_order_by_components(p: Seq<char>, q: Seq<char>)
    ensures
        path_less(p, q) == components_less(path_components(p), path_components(q)),
        same_path(p, q) == (path_components(p) == path_components(q)),
{
}

/// `path_less` is a strict total order on paths told apart by `same_path`.
pub proof fn lemma_path_order(p: Seq<char>, q: Seq<char>, r: Seq<char>)
    ensures
        !path_less(p, p),
        path_less(p, q) ==> !path_less(q, p) && !same_path(p, q),
        !same_path(p, q) ==> path_less(p, q) || path_less(q, p),
        path_less(p, q) && path_less(q, r) ==> path_less(p, r),
{
    lemma_components_order(path_components(p), path_components(q), path_components(r));
}

/// The components of a path, each as its rank and its name.
pub fn components(path: &[char]) -> (r: Vec<(u8, Vec<char>)>)
    ensures
        r@.map_values(|c: (u8, Vec<char>)| (c.0, c.1@)) == path_components(path@),
{
    let pieces = split_chars(path, '/');
    let ghost views = split_on(path@, '/');
    proof {
        assert(pieces@.map_values(|p: Vec<char>| p@) =~= views);
    }
    let mut out: Vec<(u8, Vec<char>)> = Vec::new();
    let mut k: usize = pieces.len();
    proof {
        assert(views.skip(k as int) =~= Seq::<Seq<char>>::empty());
    }
    while k > 0
        invariant
            k <= pieces@.len(),
            pieces@.map_values(|p: Vec<char>| p@) == views,
            out@.map_values(|c: (u8, Vec<char>)| (c.0, c.1@)) == components_of(views.skip(k as int)),
        decreases k,
    {
        let piece = &pieces[k - 1];
        let ghost before = out@;
        proof {
            assert(views.skip(k - 1)[0] == piece@);
            assert(views.skip(k - 1).drop_first() =~= views.skip(k as int));
        }
        let named = piece.len() > 0 && !(piece.len() == 1 && piece[0] == '.');
        proof {
            if piece@ == seq!['.'] {
                assert(piece@[0] == '.');
            }
            if piece.len() == 1 && piece@[0] == '.' {
                assert(piece@ =~= seq!['.']);
            }
        }
        if named {
            let parent = piece.len() == 2 && piece[0] == '.' && piece[1] == '.';
            proof {
                if piece@ == seq!['.', '.'] {
                    assert(piece@[0] == '.' && piece@[1] == '.');
                }
                if parent {
                    assert(piece@ =~= seq!['.', '.']);
                }
            }
            let part: (u8, Vec<char>) = if parent {
                (PARENT, Vec::new())
            } else {
                (NAME, piece.clone())
            };
            out.insert(0, part);
            proof {
                assert(out@.map_values(|c: (u8, Vec<char>)| (c.0, c.1@)) =~= seq![(part.0, part.1@)]
                    + before.map_values(|c: (u8, Vec<char>)| (c.0, c.1@)));
            }
        }
        k -= 1;
    }
    proof {
        assert(views.skip(0) =~= views);
    }
    if path.len() > 0 && path[0] == '/' {
        out.insert(0, (ROOT, Vec::new()));
    } else if pieces.len() > 0 && pieces[0].len() == 1 && pieces[0][0] == '.' {
        proof {
            assert(views[0] =~= seq!['.']);
        }
        out.insert(0, (CURRENT, Vec::new()));
    } else {
        proof {
            if views.len() > 0 && views[0] == seq!['.'] {
                assert(views[0][0] == '.');
            }
        }
    }
    proof {
        let m = out@.map_values(|c: (u8, Vec<char>)| (c.0, c.1@));
        assert(m =~= path_components(path@));
    }
    out
}

/// Compares two texts: `-1` when `a` sorts first, `0` when equal, `1`
/// otherwise.
fn compare_chars(a: &[char], b: &[char]) -> (r: i8)
    ensures
        r == -1 <==> chars_less(a@, b@),
        r == 0 <==> a@ == b@,
        r == 1 <==> chars_less(b@, a@),
        -1 <= r <= 1,
{
    proof {
        lemma_chars_order(a@, b@, b@);
    }
    let mut i: usize = 0;
    assert(a@.skip(0) =~= a@);
    assert(b@.skip(0) =~= b@);
    assert(a@.take(0) =~= b@.take(0));
    while i < a.len() && i < b.len() && a[i] == b[i]
        invariant
            i <= a@.len(),
            i <= b@.len(),
            a@.take(i as int) == b@.take(i as int),
            chars_less(a@, b@) == chars_less(a@.skip(i as int), b@.skip(i as int)),
            chars_less(b@, a@) == chars_less(b@.skip(i as int), a@.skip(i as int)),
        decreases a@.len() - i,
    {
        proof {
            assert(a@.skip(i as int).drop_first() =~= a@.skip(i + 1));
            assert(b@.skip(i as int).drop_first() =~= b@.skip(i + 1));
            assert(a@.take(i + 1) =~= a@.take(i as int).push(a@[i as int]));
            assert(b@.take(i + 1) =~= b@.take(i as int).push(b@[i as int]));
        }
        i += 1;
    }
    if i < a.len() && i < b.len() {
        proof {
            assert(a@.skip(i as int)[0] == a@[i as int]);
            assert(b@.skip(i as int)[0] == b@[i as int]);
            assert(a@ != b@) by {
                if a@ == b@ {
                    assert(a@[i as int] == b@[i as int]);
                }
            }
        }
        if a[i] < b[i] {
            -1
        } else {
            1
        }
    } else if i < b.len() {
        proof {
            assert(a@.take(i as int) =~= a@);
            assert(a@ != b@);
        }
        -1
    } else if i < a.len() {
        proof {
            assert(b@.take(i as int) =~= b@);
            assert(a@ != b@);
        }
        1
    } else {
        proof {
            assert(a@.take(i as int) =~= a@);
            assert(b@.take(i as int) =~= b@);
        }
        0
    }
}

/// Compares two component sequences: `-1` when `a` sorts first, `0` when
/// equal, `1` otherwise.
fn compare_components(a: &Vec<(u8, Vec<char>)>, b: &Vec<(u8, Vec<char>)>) -> (r: i8)
    ensures
        r == -1 <==> components_less(
            a@.map_values(|c: (u8, Vec<char>)| (c.0, c.1@)),
            b@.map_values(|c: (u8, Vec<char>)| (c.0, c.1@)),
        ),
        r == 0 <==> a@.map_values(|c: (u8, Vec<char>)| (c.0, c.1@)) == b@.map_values(
            |c: (u8, Vec<char>)| (c.0, c.1@),
        ),
        r == 1 <==> components_less(
            b@.map_values(|c: (u8, Vec<char>)| (c.0, c.1@)),
            a@.map_values(|c: (u8, Vec<char>)| (c.0, c.1@)),
        ),
        -1 <= r <= 1,
{
    let ghost av = a@.map_values(|c: (u8, Vec<char>)| (c.0, c.1@));
    let ghost bv = b@.map_values(|c: (u8, Vec<char>)| (c.0, c.1@));
    proof {
        lemma_components_order(av, bv, bv);
    }
    let mut i: usize = 0;
    let mut diff: i8 = 0;
    assert(av.skip(0) =~= av);
    assert(bv.skip(0) =~= bv);
    assert(av.take(0) =~= bv.take(0));
    while i < a.len() && i < b.len() && diff == 0
        invariant
            i <= a@.len(),
            i <= b@.len(),
            av == a@.map_values(|c: (u8, Vec<char>)| (c.0, c.1@)),
            bv == b@.map_values(|c: (u8, Vec<char>)| (c.0, c.1@)),
            -1 <= diff <= 1,
            diff == 0 ==> av.take(i as int) == bv.take(i as int) && components_less(av, bv)
                == components_less(av.skip(i as int), bv.skip(i as int)) && components_less(bv, av)
                == components_less(bv.skip(i as int), av.skip(i as int)),
            diff != 0 ==> av != bv && (diff == -1 <==> components_less(av, bv)) && (diff == 1
                <==> components_less(bv, av)),
        decreases a@.len() - i + (if diff == 0 { 1int } else { 0int }),
    {
        let x = &a[i];
        let y = &b[i];
        proof {
            assert(av[i as int] == (x.0, x.1@));
            assert(bv[i as int] == (y.0, y.1@));
            assert(av.skip(i as int)[0] == av[i as int]);
            assert(bv.skip(i as int)[0] == bv[i as int]);
            lemma_component_order(av[i as int], bv[i as int], bv[i as int]);
        }
        if x.0 < y.0 {
            diff = -1;
        } else if y.0 < x.0 {
            diff = 1;
        } else {
            let c = compare_chars(x.1.as_slice(), y.1.as_slice());
            if c == 0 {
                proof {
                    assert(av.skip(i as int).drop_first() =~= av.skip(i + 1));
                    assert(bv.skip(i as int).drop_first() =~= bv.skip(i + 1));
                    assert(av.take(i + 1) =~= av.take(i as int).push(av[i as int]));
                    assert(bv.take(i + 1) =~= bv.take(i as int).push(bv[i as int]));
                }
                i += 1;
            } else {
                diff = c;
            }
        }
        proof {
            if diff != 0 {
                assert(av != bv) by {
                    if av == bv {
                        assert(av[i as int] == bv[i as int]);
                    }
                }
            }
        }
    }
    if diff != 0 {
        diff
    } else if i < b.len() {
        proof {
            assert(av.take(i as int) =~= av);
            assert(av != bv);
        }
        -1
    } else if i < a.len() {
        proof {
            assert(bv.take(i as int) =~= bv);
            assert(av != bv);
        }
        1
    } else {
        proof {
            assert(av.take(i as int) =~= av);
            assert(bv.take(i as int) =~= bv);
        }
        0
    }
}

/// Compares two paths as `Path` does: `-1` when `p` sorts first, `0` when
/// they are the same path, `1` otherwise.
pub fn compare_paths(p: &str, q: &str) -> (r: i8)
    ensures
        r == -1 <==> path_less(p@, q@),
        r == 0 <==> same_path(p@, q@),
        r == 1 <==> path_less(q@, p@),
        -1 <= r <= 1,
{
    let pc = crate::text::chars_of(p);
    let qc = crate::text::chars_of(q);
    let a = components(pc.as_slice());
    let b = components(qc.as_slice());
    compare_components(&a, &b)
}

/// The last component when it is a name, as `Path::file_name` gives it.
pub open spec fn file_name(path: Seq<char>) -> Option<Seq<char>> {
    let parts = path_components(path);
    if parts.len() > 0 && parts.last().0 == NAME {
        Some(parts.last().1)
    } else {
        None
    }
}

} // verus!
