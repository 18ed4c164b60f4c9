//! The order of paths: byte by byte over their UTF-8 encodings.
use vstd::prelude::*;
use vstd::utf8::*;

verus! {

/// Lexicographic order of byte strings.
pub open spec fn bytes_less(a: Seq<u8>, b: Seq<u8>) -> bool
    decreases a.len(),
{
    if b.len() == 0 {
        false
    } else if a.len() == 0 {
        true
    } else if a[0] != b[0] {
        a[0] < b[0]
    } else {
        bytes_less(a.drop_first(), b.drop_first())
    }
}

/// Whether the path `a` sorts before the path `b`.
pub open spec fn path_less(a: Seq<char>, b: Seq<char>) -> bool {
    bytes_less(encode_utf8(a), encode_utf8(b))
}

/// Where one path stands relative to another.
#[derive(Debug, Clone, Copy, PartialEq, Eq)]
pub enum Placement {
    Before,
    Same,
    After,
}

/// The placement of `a` relative to `b`.
pub open spec fn placement(a: Seq<char>, b: Seq<char>) -> Placement {
    if a == b {
        Placement::Same
    } else if path_less(a, b) {
        Placement::Before
    } else {
        Placement::After
    }
}

proof fn bytes_less_irreflexive(a: Seq<u8>)
    ensures
        !bytes_less(a, a),
    decreases a.len(),
{
    if a.len() > 0 {
        bytes_less_irreflexive(a.drop_first());
    }
}

proof fn bytes_less_transitive(a: Seq<u8>, b: Seq<u8>, c: Seq<u8>)
    requires
        bytes_less(a, b),
        bytes_less(b, c),
    ensures
        bytes_less(a, c),
    decreases a.len(),
{
    if a.len() > 0 && a[0] == b[0] && b[0] == c[0] {
        bytes_less_transitive(a.drop_first(), b.drop_first(), c.drop_first());
    }
}

proof fn bytes_less_total(a: Seq<u8>, b: Seq<u8>)
    ensures
        bytes_less(a, b) || bytes_less(b, a) || a == b,
    decreases a.len(),
{
    if a.len() == 0 || b.len() == 0 {
        if a.len() == 0 && b.len() == 0 {
            assert(a =~= b);
        }
    } else if a[0] == b[0] {
        bytes_less_total(a.drop_first(), b.drop_first());
        if a.drop_first() == b.drop_first() {
            assert(a =~= seq![a[0]] + a.drop_first());
            assert(b =~= seq![b[0]] + b.drop_first());
        }
    }
}

/// Paths are strictly and totally ordered.
pub proof fn path_order_is_total(a: Seq<char>, b: Seq<char>, c: Seq<char>)
    ensures
        !path_less(a, a),
        path_less(a, b) && path_less(b, c) ==> path_less(a, c),
        path_less(a, b) || path_less(b, a) || a == b,
        !(path_less(a, b) && path_less(b, a)),
{
    let (x, y, z) = (encode_utf8(a), encode_utf8(b), encode_utf8(c));
    bytes_less_irreflexive(x);
    if bytes_less(x, y) && bytes_less(y, z) {
        bytes_less_transitive(x, y, z);
    }
    if bytes_less(x, y) && bytes_less(y, x) {
        bytes_less_transitive(x, y, x);
    }
    bytes_less_total(x, y);
    encode_utf8_decode_utf8(a);
    encode_utf8_decode_utf8(b);
}

/// Places the path `a` relative to the path `b`.
pub fn place_path(a: &str, b: &str) -> (p: Placement)
    ensures
        p == placement(a@, b@),
{
    let x = a.as_bytes();
    let y = b.as_bytes();
    let mut i: usize = 0;
    proof {
        path_order_is_total(a@, b@, b@);
        assert(x@.skip(0) =~= x@);
        assert(y@.skip(0) =~= y@);
    }
    while i < x.len() && i < y.len() && x[i] == y[i]
        invariant
            0 <= i <= x@.len(),
            i <= y@.len(),
            x@.take(i as int) == y@.take(i as int),
            bytes_less(x@, y@) == bytes_less(x@.skip(i as int), y@.skip(i as int)),
        decreases x@.len() - i,
    {
        assert(x@.skip(i as int).drop_first() =~= x@.skip(i + 1));
        assert(y@.skip(i as int).drop_first() =~= y@.skip(i + 1));
        assert(x@.take(i + 1) =~= x@.take(i as int).push(x@[i as int]));
        assert(y@.take(i + 1) =~= y@.take(i as int).push(y@[i as int]));
        i += 1;
    }
    if i == x.len() && i == y.len() {
        proof {
            assert(x@.take(i as int) =~= x@);
            assert(y@.take(i as int) =~= y@);
            encode_utf8_decode_utf8(a@);
            encode_utf8_decode_utf8(b@);
        }
        Placement::Same
    } else {
        assert(x@ != y@) by {
            if x@.len() == y@.len() {
                assert(x@[i as int] != y@[i as int]);
            }
        }
        if i == x.len() || (i < y.len() && x[i] < y[i]) {
            Placement::Before
        } else {
            Placement::After
        }
    }
}

proof fn equal_heads_drop(x: Seq<u8>, y: Seq<u8>, i: nat)
    requires
        i <= x.len(),
        i <= y.len(),
        x.take(i as int) == y.take(i as int),
    ensures
        bytes_less(x, y) == bytes_less(x.skip(i as int), y.skip(i as int)),
    decreases i,
{
    if i == 0 {
        assert(x.skip(0) =~= x);
        assert(y.skip(0) =~= y);
    } else {
        let (head, other) = (x.take(i as int), y.take(i as int));
        assert(x[0] == head[0] && y[0] == other[0]);
        let (u, v) = (x.drop_first(), y.drop_first());
        let m = (i - 1) as nat;
        assert(u.take(m as int) =~= v.take(m as int)) by {
            assert forall|k: int| 0 <= k < m implies u[k] == v[k] by {
                assert(x[k + 1] == head[k + 1] && y[k + 1] == other[k + 1]);
            }
        }
        equal_heads_drop(u, v, m);
        assert(u.skip(m as int) =~= x.skip(i as int));
        assert(v.skip(m as int) =~= y.skip(i as int));
    }
}

/// Of two paths whose encodings differ first at one byte, the one with the smaller
/// byte there sorts first.
pub proof fn first_different_byte_decides(a: Seq<char>, b: Seq<char>, i: nat)
    requires
        i < encode_utf8(a).len(),
        i < encode_utf8(b).len(),
        encode_utf8(a).take(i as int) == encode_utf8(b).take(i as int),
        encode_utf8(a)[i as int] != encode_utf8(b)[i as int],
    ensures
        path_less(a, b) <==> encode_utf8(a)[i as int] < encode_utf8(b)[i as int],
        placement(a, b) == (if encode_utf8(a)[i as int] < encode_utf8(b)[i as int] {
            Placement::Before
        } else {
            Placement::After
        }),
{
    equal_heads_drop(encode_utf8(a), encode_utf8(b), i);
}

/// A path whose encoding is a proper prefix of another's sorts before it.
pub proof fn prefixes_sort_first(a: Seq<char>, b: Seq<char>)
    requires
        encode_utf8(a).len() < encode_utf8(b).len(),
        encode_utf8(b).take(encode_utf8(a).len() as int) == encode_utf8(a),
    ensures
        path_less(a, b),
        !path_less(b, a),
        placement(a, b) == Placement::Before,
        placement(b, a) == Placement::After,
{
    let n = encode_utf8(a).len();
    assert(encode_utf8(a).take(n as int) =~= encode_utf8(a));
    equal_heads_drop(encode_utf8(a), encode_utf8(b), n);
    path_order_is_total(a, b, b);
}

/// A path has the same place as itself, and no other.
pub proof fn only_equal_paths_share_a_place(a: Seq<char>, b: Seq<char>)
    ensures
        placement(a, b) == Placement::Same <==> a == b,
        placement(a, b) == Placement::Before <==> placement(b, a) == Placement::After,
{
    path_order_is_total(a, b, b);
}

} // verus!
