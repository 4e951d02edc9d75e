//! Broadcasting of array shapes: the shape that several arrays take together
//! when each is stretched along its dimensions of length 1 and padded with
//! leading dimensions of length 1.
use vstd::prelude::*;

verus! {

/// The shapes given, as sequences of dimension lengths.
pub open spec fn shapes_view(shapes: &[&[usize]]) -> Seq<Seq<usize>> {
    shapes@.map_values(|s: &[usize]| s@)
}

/// The largest number of dimensions among the shapes (0 for no shapes).
pub open spec fn max_ndim(shapes: Seq<Seq<usize>>) -> nat
    decreases shapes.len(),
{
    if shapes.len() == 0 {
        0
    } else {
        let rest = max_ndim(shapes.drop_last());
        if shapes.last().len() > rest {
            shapes.last().len()
        } else {
            rest
        }
    }
}

/// Whether `shape`, aligned to the right of `ndim` dimensions, has a dimension
/// at position `i`.
pub open spec fn has_dim(shape: Seq<usize>, ndim: int, i: int) -> bool {
    shape.len() + i >= ndim
}

/// The length of `shape` at position `i` once aligned to the right of `ndim`
/// dimensions.
pub open spec fn dim_at(shape: Seq<usize>, ndim: int, i: int) -> usize {
    shape[i + shape.len() - ndim]
}

/// Two of the shapes disagree at position `i`: both have a length there other
/// than 1, and the lengths differ.
pub open spec fn conflict_at(shapes: Seq<Seq<usize>>, i: int, j: int, k: int) -> bool {
    let n = max_ndim(shapes) as int;
    &&& 0 <= i < n
    &&& 0 <= j < shapes.len()
    &&& 0 <= k < shapes.len()
    &&& has_dim(shapes[j], n, i)
    &&& has_dim(shapes[k], n, i)
    &&& dim_at(shapes[j], n, i) != 1
    &&& dim_at(shapes[k], n, i) != 1
    &&& dim_at(shapes[j], n, i) != dim_at(shapes[k], n, i)
}

/// The shapes cannot be broadcast together: there are none, or two of them
/// disagree at some position.
pub open spec fn broadcast_fails(shapes: Seq<Seq<usize>>) -> bool {
    shapes.len() == 0 || exists|i: int, j: int, k: int| conflict_at(shapes, i, j, k)
}

/// `result` is the broadcast shape of `shapes`: it has the largest number of
/// dimensions, and at each position the length that the shapes other than 1
/// have there, or 1 when they all have 1 or nothing there.
pub open spec fn is_broadcast_of(shapes: Seq<Seq<usize>>, result: Seq<usize>) -> bool {
    let n = max_ndim(shapes) as int;
    &&& result.len() == n
    &&& forall|i: int, j: int|
        0 <= i < n && 0 <= j < shapes.len() && #[trigger] has_dim(shapes[j], n, i) ==> dim_at(
            shapes[j],
            n,
            i,
        ) == 1 || dim_at(shapes[j], n, i) == result[i]
    &&& forall|i: int|
        0 <= i < n && #[trigger] result[i] != 1 ==> exists|j: int|
            0 <= j < shapes.len() && #[trigger] has_dim(shapes[j], n, i) && dim_at(shapes[j], n, i)
                == result[i]
}

/// The largest number of dimensions bounds every shape's and is reached by one.
proof fn lemma_max_ndim(shapes: Seq<Seq<usize>>)
    ensures
        forall|j: int| 0 <= j < shapes.len() ==> (#[trigger] shapes[j]).len() <= max_ndim(shapes),
        shapes.len() > 0 ==> exists|j: int|
            0 <= j < shapes.len() && (#[trigger] shapes[j]).len() == max_ndim(shapes),
    decreases shapes.len(),
{
    if shapes.len() > 0 {
        let rest = shapes.drop_last();
        lemma_max_ndim(rest);
        assert forall|j: int| 0 <= j < shapes.len() implies (#[trigger] shapes[j]).len()
            <= max_ndim(shapes) by {
            if j < shapes.len() - 1 {
                assert(shapes[j] == rest[j]);
            }
        }
        if shapes.last().len() > max_ndim(rest) {
            assert(shapes[shapes.len() - 1].len() == max_ndim(shapes));
        } else if rest.len() > 0 {
            let j = choose|j: int| 0 <= j < rest.len() && (#[trigger] rest[j]).len() == max_ndim(rest);
            assert(shapes[j] == rest[j]);
        } else {
            assert(shapes[0].len() == max_ndim(shapes));
        }
    }
}

/// Calls `format!` with the `Debug` formatting of the shapes (as a slice of
/// slices of `usize`, such as `[[3, 2], [2, 1]]`); the text is named, not
/// stated.
pub uninterp spec fn debug_format_shapes(shapes: Seq<Seq<usize>>) -> Seq<char>;

/// Calls `format!("{:?}", shapes)`.
#[verifier::external_body]
fn format_shapes(shapes: &[&[usize]]) -> (r: String)
    ensures
        r@ == debug_format_shapes(shapes_view(shapes)),
{
    format!("{:?}", shapes)
}

/// The error of shapes that cannot be broadcast together; its message shows
/// the shapes.
#[derive(Debug)]
pub struct BroadcastingError(String);

impl View for BroadcastingError {
    type V = Seq<char>;

    closed spec fn view(&self) -> Seq<char> {
        self.0@
    }
}

impl BroadcastingError {
    /// The error for the given shapes.
    pub fn new(shapes: &[&[usize]]) -> (r: Self)
        ensures
            r@ == debug_format_shapes(shapes_view(shapes)),
    {
        BroadcastingError(format_shapes(shapes))
    }

    /// The message of the error.
    pub fn message(&self) -> (r: String)
        ensures
            r@ == self@,
    {
        self.0.clone()
    }
}

/// The shape that `shapes` broadcast to, or nothing when there are no shapes
/// or two of them disagree.
pub fn broadcast_shapes(shapes: &[&[usize]]) -> (r: Option<Vec<usize>>)
    ensures
        r is None <==> broadcast_fails(shapes_view(shapes)),
        r matches Some(v) ==> is_broadcast_of(shapes_view(shapes), v@),
{
    let ghost ss = shapes_view(shapes);
    let count = shapes.len();
    if count == 0 {
        return None;
    }
    /* the broadcast number of dimensions */
    let mut ndim: usize = 0;
    let mut j: usize = 0;
    while j < count
        invariant
            count == shapes.len(),
            ss == shapes_view(shapes),
            j <= count,
            ndim == max_ndim(ss.take(j as int)),
        decreases count - j,
    {
        assert(ss.take(j + 1).drop_last() == ss.take(j as int));
        if shapes[j].len() > ndim {
            ndim = shapes[j].len();
        }
        j = j + 1;
    }
    assert(ss.take(count as int) == ss);
    proof {
        lemma_max_ndim(ss);
    }
    let ghost n = ndim as int;
    let mut result: Vec<usize> = Vec::new();
    /* the broadcast length of each dimension */
    let mut i: usize = 0;
    while i < ndim
        invariant
            count == shapes.len(),
            count > 0,
            ss == shapes_view(shapes),
            ndim == max_ndim(ss),
            n == ndim,
            forall|jj: int| 0 <= jj < ss.len() ==> (#[trigger] ss[jj]).len() <= ndim,
            i <= ndim,
            result.len() == i,
            forall|ii: int, jj: int|
                0 <= ii < i && 0 <= jj < ss.len() && #[trigger] has_dim(ss[jj], n, ii)
                    ==> dim_at(ss[jj], n, ii) == 1 || dim_at(ss[jj], n, ii) == result@[ii],
            forall|ii: int|
                0 <= ii < i && #[trigger] result@[ii] != 1 ==> exists|jj: int|
                    0 <= jj < ss.len() && #[trigger] has_dim(ss[jj], n, ii) && dim_at(ss[jj], n, ii)
                        == result@[ii],
            forall|ii: int, jj: int, kk: int| 0 <= ii < i ==> !conflict_at(ss, ii, jj, kk),
        decreases ndim - i,
    {
        let mut cur: usize = 1;
        let mut j: usize = 0;
        while j < count
            invariant
                count == shapes.len(),
                ss == shapes_view(shapes),
                ndim == max_ndim(ss),
                n == ndim,
                forall|jj: int| 0 <= jj < ss.len() ==> (#[trigger] ss[jj]).len() <= ndim,
                i < ndim,
                j <= count,
                forall|jj: int|
                    0 <= jj < j && #[trigger] has_dim(ss[jj], n, i as int) ==> dim_at(
                        ss[jj],
                        n,
                        i as int,
                    ) == 1 || dim_at(ss[jj], n, i as int) == cur,
                cur != 1 ==> exists|jj: int|
                    0 <= jj < j && #[trigger] has_dim(ss[jj], n, i as int) && dim_at(
                        ss[jj],
                        n,
                        i as int,
                    ) == cur,
                forall|jj: int, kk: int|
                    0 <= jj < j && 0 <= kk < j ==> !conflict_at(ss, i as int, jj, kk),
            decreases count - j,
        {
            let s = shapes[j];
            assert(ss[j as int] == s@);
            /* shapes with fewer dimensions are padded with leading 1s */
            if s.len() >= ndim - i {
                let k = s.len() - (ndim - i);
                let tmp = s[k];
                assert(has_dim(ss[j as int], n, i as int) && dim_at(ss[j as int], n, i as int) == tmp);
                if tmp != 1 {
                    if cur == 1 {
                        cur = tmp;
                    } else if cur != tmp {
                        proof {
                            let jj = choose|jj: int|
                                0 <= jj < j && #[trigger] has_dim(ss[jj], n, i as int) && dim_at(
                                    ss[jj],
                                    n,
                                    i as int,
                                ) == cur;
                            assert(conflict_at(ss, i as int, jj, j as int));
                        }
                        return None;
                    }
                }
            }
            assert forall|jj: int, kk: int|
                0 <= jj < j + 1 && 0 <= kk < j + 1 implies !conflict_at(ss, i as int, jj, kk) by {}
            j = j + 1;
        }
        result.push(cur);
        assert forall|ii: int, jj: int, kk: int| 0 <= ii < i + 1 implies !conflict_at(
            ss,
            ii,
            jj,
            kk,
        ) by {
            if ii == i && conflict_at(ss, ii, jj, kk) {
                assert(!conflict_at(ss, i as int, jj, kk));
            }
        }
        i = i + 1;
    }
    assert(!(exists|ii: int, jj: int, kk: int| conflict_at(ss, ii, jj, kk)));
    Some(result)
}

/// The length recorded at `i` in a shape, 0 where the shape has no dimension
/// there yet.
pub open spec fn recorded_at(shape: Seq<usize>, i: int) -> usize {
    if 0 <= i < shape.len() {
        shape[i]
    } else {
        0
    }
}

/// Records that a level of a nested sequence of values, at `depth` levels
/// down, holds `count` items: the dimension at `depth` becomes the larger of
/// its length and `count`; a shape with no dimension at `depth` yet is first
/// extended with dimensions of length 0 up to `depth`.
pub fn record_dimension(shape: &mut Vec<usize>, depth: usize, count: usize)
    requires
        depth < usize::MAX,
    ensures
        final(shape)@.len() == if depth < old(shape)@.len() {
            old(shape)@.len() as int
        } else {
            depth + 1
        },
        forall|i: int|
            0 <= i < final(shape)@.len() ==> #[trigger] final(shape)@[i] == if i == depth {
                if recorded_at(old(shape)@, i) < count {
                    count
                } else {
                    recorded_at(old(shape)@, i)
                }
            } else {
                recorded_at(old(shape)@, i)
            },
{
    let ghost before = shape@;
    if shape.len() <= depth {
        while shape.len() <= depth
            invariant
                before.len() <= shape@.len() <= depth + 1,
                depth < usize::MAX,
                forall|i: int|
                    0 <= i < shape@.len() ==> #[trigger] shape@[i] == recorded_at(before, i),
            decreases depth + 1 - shape@.len(),
        {
            shape.push(0);
        }
    }
    let current = shape[depth];
    if current < count {
        shape.set(depth, count);
    }
}

/// The broadcast shape is unique: two shapes that both satisfy the definition
/// for the same inputs are equal.
pub proof fn law_broadcast_shape_is_unique(shapes: Seq<Seq<usize>>, a: Seq<usize>, b: Seq<usize>)
    requires
        is_broadcast_of(shapes, a),
        is_broadcast_of(shapes, b),
    ensures
        a == b,
{
    let n = max_ndim(shapes) as int;
    assert forall|i: int| 0 <= i < n implies a[i] == b[i] by {
        if a[i] != 1 {
            let j = choose|j: int|
                0 <= j < shapes.len() && #[trigger] has_dim(shapes[j], n, i) && dim_at(shapes[j], n, i)
                    == a[i];
            assert(has_dim(shapes[j], n, i));
        } else if b[i] != 1 {
            let j = choose|j: int|
                0 <= j < shapes.len() && #[trigger] has_dim(shapes[j], n, i) && dim_at(shapes[j], n, i)
                    == b[i];
            assert(has_dim(shapes[j], n, i));
        }
    }
    assert(a =~= b);
}

proof fn lemma_same_members_same_ndim(a: Seq<Seq<usize>>, b: Seq<Seq<usize>>)
    requires
        forall|s: Seq<usize>| a.contains(s) <==> b.contains(s),
    ensures
        max_ndim(a) == max_ndim(b),
{
    lemma_max_ndim(a);
    lemma_max_ndim(b);
    if a.len() > 0 {
        let j = choose|j: int| 0 <= j < a.len() && (#[trigger] a[j]).len() == max_ndim(a);
        assert(a.contains(a[j]));
        let k = choose|k: int| 0 <= k < b.len() && b[k] == a[j];
        assert(b[k].len() <= max_ndim(b));
    }
    if b.len() > 0 {
        let j = choose|j: int| 0 <= j < b.len() && (#[trigger] b[j]).len() == max_ndim(b);
        assert(b.contains(b[j]));
        let k = choose|k: int| 0 <= k < a.len() && a[k] == b[j];
        assert(a[k].len() <= max_ndim(a));
    }
    if a.len() == 0 && b.len() > 0 {
        assert(b.contains(b[0]));
    }
    if b.len() == 0 && a.len() > 0 {
        assert(a.contains(a[0]));
    }
}

proof fn lemma_same_members_one_way(a: Seq<Seq<usize>>, b: Seq<Seq<usize>>, v: Seq<usize>)
    requires
        forall|s: Seq<usize>| a.contains(s) <==> b.contains(s),
    ensures
        broadcast_fails(a) ==> broadcast_fails(b),
        is_broadcast_of(a, v) ==> is_broadcast_of(b, v),
{
    lemma_same_members_same_ndim(a, b);
    let n = max_ndim(a) as int;
    if a.len() > 0 && b.len() == 0 {
        assert(a.contains(a[0]));
    }
    if a.len() == 0 && b.len() > 0 {
        assert(b.contains(b[0]));
    }
    if broadcast_fails(a) && a.len() > 0 {
        let (i, j, k) = choose|i: int, j: int, k: int| conflict_at(a, i, j, k);
        assert(a.contains(a[j]));
        assert(a.contains(a[k]));
        let j2 = choose|j2: int| 0 <= j2 < b.len() && b[j2] == a[j];
        let k2 = choose|k2: int| 0 <= k2 < b.len() && b[k2] == a[k];
        assert(conflict_at(b, i, j2, k2));
    }
    if is_broadcast_of(a, v) {
        assert forall|i: int, j: int|
            0 <= i < n && 0 <= j < b.len() && #[trigger] has_dim(b[j], n, i) implies dim_at(
            b[j],
            n,
            i,
        ) == 1 || dim_at(b[j], n, i) == v[i] by {
            assert(b.contains(b[j]));
            let j2 = choose|j2: int| 0 <= j2 < a.len() && a[j2] == b[j];
            assert(has_dim(a[j2], n, i));
        }
        assert forall|i: int| 0 <= i < n && #[trigger] v[i] != 1 implies exists|j: int|
            0 <= j < b.len() && #[trigger] has_dim(b[j], n, i) && dim_at(b[j], n, i) == v[i] by {
            let j = choose|j: int|
                0 <= j < a.len() && #[trigger] has_dim(a[j], n, i) && dim_at(a[j], n, i) == v[i];
            assert(a.contains(a[j]));
            let j2 = choose|j2: int| 0 <= j2 < b.len() && b[j2] == a[j];
            assert(has_dim(b[j2], n, i));
        }
    }
}

/// Broadcasting depends only on which shapes are given: their order and
/// repetitions change neither the failure nor the broadcast shape.
pub proof fn law_broadcast_ignores_order_and_repetition(
    a: Seq<Seq<usize>>,
    b: Seq<Seq<usize>>,
    v: Seq<usize>,
)
    requires
        forall|s: Seq<usize>| a.contains(s) <==> b.contains(s),
    ensures
        broadcast_fails(a) == broadcast_fails(b),
        is_broadcast_of(a, v) == is_broadcast_of(b, v),
{
    lemma_same_members_one_way(a, b, v);
    lemma_same_members_one_way(b, a, v);
}

/// A single shape broadcasts to itself.
pub proof fn law_single_shape_broadcasts_to_itself(s: Seq<usize>)
    ensures
        !broadcast_fails(seq![s]),
        is_broadcast_of(seq![s], s),
{
    let ss = seq![s];
    assert(max_ndim(ss.drop_last()) == 0);
    assert(max_ndim(ss) == s.len());
    let n = s.len() as int;
    assert forall|i: int| 0 <= i < n && #[trigger] s[i] != 1 implies exists|j: int|
        0 <= j < ss.len() && #[trigger] has_dim(ss[j], n, i) && dim_at(ss[j], n, i) == s[i] by {
        assert(has_dim(ss[0], n, i));
    }
}

/// Adding the broadcast shape to the shapes changes nothing: they broadcast
/// to the same shape.
pub proof fn law_broadcast_shape_absorbs_itself(shapes: Seq<Seq<usize>>, v: Seq<usize>)
    requires
        shapes.len() > 0,
        is_broadcast_of(shapes, v),
    ensures
        !broadcast_fails(shapes.push(v)),
        is_broadcast_of(shapes.push(v), v),
{
    let ss = shapes.push(v);
    assert(ss.drop_last() == shapes);
    let n = max_ndim(shapes) as int;
    assert(max_ndim(ss) == n);
    assert forall|i: int, j: int|
        0 <= i < n && 0 <= j < ss.len() && #[trigger] has_dim(ss[j], n, i) implies dim_at(
        ss[j],
        n,
        i,
    ) == 1 || dim_at(ss[j], n, i) == v[i] by {
        if j < shapes.len() {
            assert(ss[j] == shapes[j]);
            assert(has_dim(shapes[j], n, i));
        }
    }
    assert forall|i: int| 0 <= i < n && #[trigger] v[i] != 1 implies exists|j: int|
        0 <= j < ss.len() && #[trigger] has_dim(ss[j], n, i) && dim_at(ss[j], n, i) == v[i] by {
        assert(has_dim(ss[shapes.len() as int], n, i));
    }
    assert forall|i: int, j: int, k: int| !conflict_at(ss, i, j, k) by {
        if conflict_at(ss, i, j, k) {
            assert(has_dim(ss[j], n, i));
            assert(has_dim(ss[k], n, i));
            if j < shapes.len() {
                assert(ss[j] == shapes[j]);
                assert(has_dim(shapes[j], n, i));
            }
            if k < shapes.len() {
                assert(ss[k] == shapes[k]);
                assert(has_dim(shapes[k], n, i));
            }
        }
    }
}

} // verus!
