use vstd::prelude::*;

use crate::storage::{bytes_of, Storage};

verus! {

/// The longest segment that a two-byte length header can announce.
pub const MAX_SEGMENT_LEN: usize = 0xFFFF;

/// The two-byte big-endian header for a segment of `n` bytes.
pub open spec fn length_header(n: nat) -> Seq<u8> {
    seq![(n / 256) as u8, (n % 256) as u8]
}

/// A segment behind its length header.
pub open spec fn framed(segment: Seq<u8>) -> Seq<u8> {
    length_header(segment.len()) + segment
}

/// The prefix composed from namespace segments: every segment but the last
/// stands behind its length header, the last stands bare, and no segments
/// give no bytes. Caller keys are appended behind the last segment.
pub open spec fn composed(segments: Seq<Seq<u8>>) -> Seq<u8>
    decreases segments.len(),
{
    if segments.len() == 0 {
        Seq::empty()
    } else if segments.len() == 1 {
        segments[0]
    } else {
        framed(segments[0]) + composed(segments.drop_first())
    }
}

/// Every segment fits a length header.
pub open spec fn valid_segments(segments: Seq<Seq<u8>>) -> bool {
    forall|i: int| 0 <= i < segments.len() ==> (#[trigger] segments[i]).len() <= MAX_SEGMENT_LEN
}

/// The segments that a slice of byte slices holds.
pub open spec fn segments_of(namespaces: &[&[u8]]) -> Seq<Seq<u8>> {
    namespaces@.map_values(|s: &[u8]| s@)
}

/// One of two byte strings begins with the other.
pub open spec fn overlap(a: Seq<u8>, b: Seq<u8>) -> bool {
    a.is_prefix_of(b) || b.is_prefix_of(a)
}

/// When the prefixes of two segment lists overlap, the shorter list first:
/// the lists agree on all but the last segment of the shorter one, and that
/// last segment overlaps what the rest of the longer list composes to.
pub open spec fn segments_overlap(shorter: Seq<Seq<u8>>, longer: Seq<Seq<u8>>) -> bool {
    let shared = shorter.len() - 1;
    &&& shorter.drop_last() == longer.take(shared)
    &&& overlap(shorter.last(), composed(longer.skip(shared)))
}

/// The length header of a segment.
pub fn key_len(namespace: &[u8]) -> (r: [u8; 2])
    requires
        namespace@.len() <= MAX_SEGMENT_LEN,
    ensures
        r@ == length_header(namespace@.len()),
{
    let n: usize = namespace.len();
    let r: [u8; 2] = [(n / 256) as u8, (n % 256) as u8];
    assert(r@ =~= length_header(namespace@.len()));
    r
}

/// Appends `bytes` to `out`.
fn extend(out: &mut Vec<u8>, bytes: &[u8])
    ensures
        final(out)@ == old(out)@ + bytes@,
{
    let ghost before = out@;
    out.extend_from_slice(bytes);
    assert(out@ =~= before + bytes@);
}

/// The prefix of a single namespace: the namespace itself, with no header,
/// so that a store of one level keeps the shortest keys.
pub fn key_prefix(namespace: &[u8]) -> (r: Vec<u8>)
    requires
        namespace@.len() <= MAX_SEGMENT_LEN,
    ensures
        r@ == composed(seq![namespace@]),
        r@ == namespace@,
{
    let mut out: Vec<u8> = Vec::new();
    extend(&mut out, namespace);
    assert(out@ =~= namespace@);
    out
}

/// The prefix of nested namespaces, outermost first.
pub fn key_prefix_nested(namespaces: &[&[u8]]) -> (r: Vec<u8>)
    requires
        valid_segments(segments_of(namespaces)),
    ensures
        r@ == composed(segments_of(namespaces)),
{
    let ghost segments = segments_of(namespaces);
    let count: usize = namespaces.len();
    let mut out: Vec<u8> = Vec::new();
    let mut i: usize = 0;
    assert(segments.skip(0) =~= segments);
    while i < count
        invariant
            count == namespaces@.len(),
            segments == segments_of(namespaces),
            valid_segments(segments),
            0 <= i <= count,
            out@ + composed(segments.skip(i as int)) == composed(segments),
        decreases count - i,
    {
        let segment: &[u8] = namespaces[i];
        let ghost rest = segments.skip(i as int);
        let ghost before = out@;
        assert(rest[0] == segment@);
        assert(segments[i as int].len() <= MAX_SEGMENT_LEN);
        if i + 1 < count {
            let header = key_len(segment);
            extend(&mut out, header.as_slice());
            extend(&mut out, segment);
            assert(rest.drop_first() =~= segments.skip(i + 1));
            assert(out@ + composed(segments.skip(i + 1)) =~= before + composed(rest));
        } else {
            extend(&mut out, segment);
            assert(segments.skip(i + 1) =~= Seq::<Seq<u8>>::empty());
            assert(out@ + composed(segments.skip(i + 1)) =~= before + composed(rest));
        }
        i += 1;
    }
    assert(out@ =~= out@ + composed(segments.skip(count as int)));
    out
}

/// The physical key of a caller key under a prefix.
pub fn prefixed_key(prefix: &[u8], key: &[u8]) -> (r: Vec<u8>)
    ensures
        r@ == prefix@ + key@,
{
    let mut k: Vec<u8> = Vec::new();
    extend(&mut k, prefix);
    extend(&mut k, key);
    assert(k@ =~= prefix@ + key@);
    k
}

/// Reads the value that `key` has under `prefix`.
pub fn get_with_prefix<S: Storage>(storage: &S, prefix: &[u8], key: &[u8]) -> (r: Option<Vec<u8>>)
    ensures
        bytes_of(r) == storage.contents().get(prefix@ + key@),
{
    let k = prefixed_key(prefix, key);
    storage.get(k.as_slice())
}

/// Writes `value` for `key` under `prefix`.
pub fn set_with_prefix<S: Storage>(storage: &mut S, prefix: &[u8], key: &[u8], value: &[u8])
    requires
        value@.len() > 0,
    ensures
        final(storage).contents() == old(storage).contents().insert(prefix@ + key@, value@),
{
    let k = prefixed_key(prefix, key);
    storage.set(k.as_slice(), value);
}

/// Two lengths that fit a header have the same header only if they are
/// equal.
pub proof fn lemma_length_header_injective(n: nat, m: nat)
    requires
        n <= MAX_SEGMENT_LEN,
        m <= MAX_SEGMENT_LEN,
        length_header(n) == length_header(m),
    ensures
        n == m,
{
    assert(length_header(n)[0] == length_header(m)[0]);
    assert(length_header(n)[1] == length_header(m)[1]);
}

/// Framed segments form a prefix code: behind two framed segments, byte
/// strings overlap exactly when the segments are equal and what follows them
/// overlaps.
pub proof fn lemma_framed_overlap(s: Seq<u8>, u: Seq<u8>, t: Seq<u8>, v: Seq<u8>)
    requires
        s.len() <= MAX_SEGMENT_LEN,
        t.len() <= MAX_SEGMENT_LEN,
    ensures
        (framed(s) + u).is_prefix_of(framed(t) + v) <==> s == t && u.is_prefix_of(v),
{
    let p = framed(s) + u;
    let q = framed(t) + v;
    if p.is_prefix_of(q) {
        assert(p =~= q.subrange(0, p.len() as int));
        assert(p[0] == q[0]);
        assert(p[1] == q[1]);
        assert(length_header(s.len()) =~= length_header(t.len()));
        lemma_length_header_injective(s.len(), t.len());
        assert(s =~= t) by {
            assert forall|i: int| 0 <= i < s.len() implies s[i] == t[i] by {
                assert(p[i + 2] == q[i + 2]);
            }
        }
        assert(u =~= v.subrange(0, u.len() as int)) by {
            assert forall|i: int| 0 <= i < u.len() implies u[i] == v[i] by {
                assert(p[i + 2 + s.len()] == q[i + 2 + s.len()]);
            }
        }
    }
    if s == t && u.is_prefix_of(v) {
        assert(p =~= q.subrange(0, p.len() as int));
    }
}

/// When the prefixes of two lists of segments overlap: exactly when the
/// lists agree up to the last segment of the shorter one and that segment
/// overlaps what the rest of the longer list composes to.
pub proof fn lemma_composed_overlap(shorter: Seq<Seq<u8>>, longer: Seq<Seq<u8>>)
    requires
        valid_segments(shorter),
        valid_segments(longer),
        0 < shorter.len() <= longer.len(),
    ensures
        composed(shorter).is_prefix_of(composed(longer)) <==> {
            &&& shorter.drop_last() == longer.take(shorter.len() - 1)
            &&& shorter.last().is_prefix_of(composed(longer.skip(shorter.len() - 1)))
        },
        composed(longer).is_prefix_of(composed(shorter)) <==> {
            &&& shorter.drop_last() == longer.take(shorter.len() - 1)
            &&& composed(longer.skip(shorter.len() - 1)).is_prefix_of(shorter.last())
        },
        overlap(composed(shorter), composed(longer)) <==> segments_overlap(shorter, longer),
    decreases shorter.len(),
{
    let shared = shorter.len() - 1;
    if shorter.len() == 1 {
        assert(shorter.drop_last() =~= longer.take(0));
        assert(longer.skip(0) =~= longer);
    } else {
        let a = shorter.drop_first();
        let b = longer.drop_first();
        lemma_composed_overlap(a, b);
        lemma_framed_overlap(shorter[0], composed(a), longer[0], composed(b));
        lemma_framed_overlap(longer[0], composed(b), shorter[0], composed(a));
        assert(b.skip(shared - 1) =~= longer.skip(shared));
        assert(a.last() == shorter.last());
        if shorter[0] == longer[0] && a.drop_last() == b.take(shared - 1) {
            assert(shorter.drop_last() =~= longer.take(shared)) by {
                assert forall|i: int| 0 <= i < shared implies shorter.drop_last()[i] == longer.take(
                    shared,
                )[i] by {
                    if i > 0 {
                        assert(a.drop_last()[i - 1] == b.take(shared - 1)[i - 1]);
                    }
                }
            }
        }
        if shorter.drop_last() == longer.take(shared) {
            assert(shorter[0] == shorter.drop_last()[0]);
            assert(longer[0] == longer.take(shared)[0]);
            assert(a.drop_last() =~= b.take(shared - 1)) by {
                assert forall|i: int| 0 <= i < shared - 1 implies a.drop_last()[i] == b.take(
                    shared - 1,
                )[i] by {
                    assert(shorter.drop_last()[i + 1] == longer.take(shared)[i + 1]);
                }
            }
        }
    }
}

/// Lists of as many segments compose to the same prefix only if they are
/// the same list.
pub proof fn lemma_composed_injective(a: Seq<Seq<u8>>, b: Seq<Seq<u8>>)
    requires
        valid_segments(a),
        valid_segments(b),
        a.len() == b.len(),
        composed(a) == composed(b),
    ensures
        a == b,
{
    if a.len() > 0 {
        let shared = a.len() - 1;
        lemma_composed_overlap(a, b);
        assert(composed(a).is_prefix_of(composed(b)));
        assert(composed(b).is_prefix_of(composed(a)));
        assert(b.skip(shared) =~= seq![b.last()]);
        assert(a.last() =~= b.last());
        assert(a =~= b) by {
            assert forall|i: int| 0 <= i < a.len() implies a[i] == b[i] by {
                if i < shared {
                    assert(a.drop_last()[i] == b.take(shared)[i]);
                }
            }
        }
    } else {
        assert(a =~= b);
    }
}

/// Prefixes never overlap for two lists of segments that disagree before the
/// last segment of the shorter one, or whose remainders do not overlap:
/// neither prefix then begins with the other, and they differ.
pub proof fn lemma_composed_collision_free(shorter: Seq<Seq<u8>>, longer: Seq<Seq<u8>>)
    requires
        valid_segments(shorter),
        valid_segments(longer),
        0 < shorter.len() <= longer.len(),
        !segments_overlap(shorter, longer),
    ensures
        !composed(shorter).is_prefix_of(composed(longer)),
        !composed(longer).is_prefix_of(composed(shorter)),
        composed(shorter) != composed(longer),
{
    lemma_composed_overlap(shorter, longer);
    if composed(shorter) == composed(longer) {
        assert(composed(shorter).is_prefix_of(composed(longer)));
    }
}

} // verus!
