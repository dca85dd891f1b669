//! Symbol naming: the flat, linker-safe path used for the generated C-linkage
//! symbols, and the scope-resolved path used to reach the wrapped native
//! entity at the call site.
//!
//! The flat path joins namespace segments and the class name with `_`.  Every
//! literal underscore inside a segment is doubled first, so that a segment
//! boundary stays distinguishable from an underscore that belongs to a
//! segment's own text.  The doubling must happen identically on both emitted
//! sides; `lemma_escaped_join_injective` states the collision freedom this
//! buys.

use vstd::prelude::*;
use vstd::string::StrSliceExecFns;

use crate::text::emit;
use crate::text::lemma_take_all;
use crate::text::lemma_take_snoc;

verus! {

/// The escape of one character: a literal underscore is doubled.
pub open spec fn escape_char(c: char) -> Seq<char> {
    if c == '_' {
        seq!['_', '_']
    } else {
        seq![c]
    }
}

/// The escape of a whole segment.
pub open spec fn escaped(seg: Seq<char>) -> Seq<char>
    decreases seg.len(),
{
    if seg.len() == 0 {
        Seq::empty()
    } else {
        escape_char(seg[0]) + escaped(seg.drop_first())
    }
}

/// The flat-path prefix contributed by the namespace: each segment escaped
/// and followed by one separator underscore.
pub open spec fn ns_prefix_c(ns: Seq<Seq<char>>) -> Seq<char>
    decreases ns.len(),
{
    if ns.len() == 0 {
        Seq::empty()
    } else {
        escaped(ns[0]) + "_"@ + ns_prefix_c(ns.drop_first())
    }
}

/// The flat, linker-safe path: escaped namespace prefix, then the class
/// name, itself escaped the same way.
pub open spec fn c_path_text(ns: Seq<Seq<char>>, name: Seq<char>) -> Seq<char> {
    ns_prefix_c(ns) + escaped(name)
}

/// The scope-resolution prefix contributed by the namespace on the native
/// side, unescaped: this string is only ever a source-level reference, never
/// a linker symbol.
pub open spec fn ns_prefix_cpp(ns: Seq<Seq<char>>) -> Seq<char>
    decreases ns.len(),
{
    if ns.len() == 0 {
        Seq::empty()
    } else {
        ns[0] + "::"@ + ns_prefix_cpp(ns.drop_first())
    }
}

/// The scope-resolved native path.
pub open spec fn cpp_path_text(ns: Seq<Seq<char>>, name: Seq<char>) -> Seq<char> {
    ns_prefix_cpp(ns) + name
}

/// Appending one character extends the escape on the right.
pub proof fn lemma_escaped_push(seg: Seq<char>, c: char)
    ensures
        escaped(seg.push(c)) == escaped(seg) + escape_char(c),
    decreases seg.len(),
{
    if seg.len() == 0 {
        assert(seg.push(c)[0] == c);
        assert(seg.push(c).drop_first() =~= seg);
        assert(escaped(seg.push(c)) =~= escaped(seg) + escape_char(c));
    } else {
        assert(seg.push(c)[0] == seg[0]);
        assert(seg.push(c).drop_first() =~= seg.drop_first().push(c));
        lemma_escaped_push(seg.drop_first(), c);
        assert(escaped(seg.push(c)) =~= escaped(seg) + escape_char(c));
    }
}

/// Appending one segment extends the namespace prefix on the right.
pub proof fn lemma_ns_prefix_c_push(ns: Seq<Seq<char>>, seg: Seq<char>)
    ensures
        ns_prefix_c(ns.push(seg)) == ns_prefix_c(ns) + escaped(seg) + "_"@,
    decreases ns.len(),
{
    if ns.len() == 0 {
        assert(ns.push(seg)[0] == seg);
        assert(ns.push(seg).drop_first() =~= ns);
        assert(ns_prefix_c(ns.push(seg)) =~= ns_prefix_c(ns) + escaped(seg) + "_"@);
    } else {
        assert(ns.push(seg)[0] == ns[0]);
        assert(ns.push(seg).drop_first() =~= ns.drop_first().push(seg));
        lemma_ns_prefix_c_push(ns.drop_first(), seg);
        assert(ns_prefix_c(ns.push(seg)) =~= ns_prefix_c(ns) + escaped(seg) + "_"@);
    }
}

/// Appending one segment extends the scope-resolution prefix on the right.
pub proof fn lemma_ns_prefix_cpp_push(ns: Seq<Seq<char>>, seg: Seq<char>)
    ensures
        ns_prefix_cpp(ns.push(seg)) == ns_prefix_cpp(ns) + seg + "::"@,
    decreases ns.len(),
{
    if ns.len() == 0 {
        assert(ns.push(seg)[0] == seg);
        assert(ns.push(seg).drop_first() =~= ns);
        assert(ns_prefix_cpp(ns.push(seg)) =~= ns_prefix_cpp(ns) + seg + "::"@);
    } else {
        assert(ns.push(seg)[0] == ns[0]);
        assert(ns.push(seg).drop_first() =~= ns.drop_first().push(seg));
        lemma_ns_prefix_cpp_push(ns.drop_first(), seg);
        assert(ns_prefix_cpp(ns.push(seg)) =~= ns_prefix_cpp(ns) + seg + "::"@);
    }
}

/// Writes one namespace segment with every literal underscore doubled.
pub fn c_path_ns_part(ns_part: &str, out: &mut String)
    ensures
        final(out)@ == old(out)@ + escaped(ns_part@),
{
    let n = ns_part.unicode_len();
    let mut i: usize = 0;
    proof {
        assert(ns_part@.take(0).len() == 0);
        assert(out@ =~= out@ + escaped(ns_part@.take(0)));
    }
    while i < n
        invariant
            i <= n,
            n == ns_part@.len(),
            out@ == old(out)@ + escaped(ns_part@.take(i as int)),
        decreases n - i,
    {
        let c = ns_part.get_char(i);
        if c == '_' {
            emit(out, "__");
            proof {
                reveal_strlit("__");
            }
        } else {
            let piece = ns_part.substring_char(i, i + 1);
            emit(out, piece);
            proof {
                assert(piece@ =~= seq![c]);
            }
        }
        proof {
            lemma_take_snoc(ns_part@, i as int);
            lemma_escaped_push(ns_part@.take(i as int), c);
            assert(escape_char(c).len() <= 2);
            assert(out@ =~= old(out)@ + escaped(ns_part@.take(i as int + 1)));
        }
        i = i + 1;
    }
    proof {
        lemma_take_all(ns_part@);
    }
}

/// Writes the flat, linker-safe path for a namespaced class name.
pub fn generate_c_path(namespace: &Vec<String>, name: &str, out: &mut String)
    ensures
        final(out)@ == old(out)@ + c_path_text(namespace.deep_view(), name@),
{
    let ghost ns = namespace.deep_view();
    let n = namespace.len();
    let mut i: usize = 0;
    proof {
        assert(ns.len() == n);
        assert(ns.take(0).len() == 0);
        assert(out@ =~= out@ + ns_prefix_c(ns.take(0)));
    }
    while i < n
        invariant
            i <= n,
            n == namespace@.len(),
            ns == namespace.deep_view(),
            ns.len() == n,
            out@ == old(out)@ + ns_prefix_c(ns.take(i as int)),
        decreases n - i,
    {
        c_path_ns_part(namespace[i].as_str(), out);
        emit(out, "_");
        proof {
            assert(ns[i as int] == namespace@[i as int]@);
            lemma_take_snoc(ns, i as int);
            lemma_ns_prefix_c_push(ns.take(i as int), ns[i as int]);
            assert(out@ =~= old(out)@ + ns_prefix_c(ns.take(i as int + 1)));
        }
        i = i + 1;
    }
    c_path_ns_part(name, out);
    proof {
        lemma_take_all(ns);
    }
}

/// Writes the scope-resolved native path for a namespaced class name.
pub fn generate_cpp_path(namespace: &Vec<String>, name: &str, out: &mut String)
    ensures
        final(out)@ == old(out)@ + cpp_path_text(namespace.deep_view(), name@),
{
    let ghost ns = namespace.deep_view();
    let n = namespace.len();
    let mut i: usize = 0;
    proof {
        assert(ns.len() == n);
        assert(ns.take(0).len() == 0);
        assert(out@ =~= out@ + ns_prefix_cpp(ns.take(0)));
    }
    while i < n
        invariant
            i <= n,
            n == namespace@.len(),
            ns == namespace.deep_view(),
            ns.len() == n,
            out@ == old(out)@ + ns_prefix_cpp(ns.take(i as int)),
        decreases n - i,
    {
        emit(out, namespace[i].as_str());
        emit(out, "::");
        proof {
            assert(ns[i as int] == namespace@[i as int]@);
            lemma_take_snoc(ns, i as int);
            lemma_ns_prefix_cpp_push(ns.take(i as int), ns[i as int]);
            assert(out@ =~= old(out)@ + ns_prefix_cpp(ns.take(i as int + 1)));
        }
        i = i + 1;
    }
    emit(out, name);
    proof {
        lemma_take_all(ns);
    }
}

// ---------------------------------------------------------------------------
// Collision freedom of the escaped join.
//
// The join is decoded from the left: inside a segment, underscores only occur
// doubled, so the first underscore that is not followed by another one is the
// separator that closes the current segment.  The decode functions below make
// that reading precise; round-tripping them through the join shows the join
// is injective.  The decode needs each segment to be nonempty and to start
// with something other than an underscore: a segment that starts with an
// underscore can donate its lead underscore to the text before it (for
// example, `a_` then `b` joins to the same symbol as `a` then `_b`).
// ---------------------------------------------------------------------------

/// A segment the decoder can recover: nonempty and not led by an underscore.
pub open spec fn seg_ok(seg: Seq<char>) -> bool {
    seg.len() > 0 && seg[0] != '_'
}

/// All segments of a namespace are recoverable.
pub open spec fn all_segs_ok(ns: Seq<Seq<char>>) -> bool {
    forall|i: int| 0 <= i < ns.len() ==> seg_ok(#[trigger] ns[i])
}

/// The first segment read back from an escaped join.
pub open spec fn first_seg(s: Seq<char>) -> Seq<char>
    decreases s.len(),
{
    if s.len() == 0 {
        Seq::empty()
    } else if s[0] == '_' {
        if s.len() >= 2 && s[1] == '_' {
            seq!['_'] + first_seg(s.skip(2))
        } else {
            Seq::empty()
        }
    } else {
        seq![s[0]] + first_seg(s.drop_first())
    }
}

/// What remains of an escaped join after its first segment and separator.
pub open spec fn rem_after_seg(s: Seq<char>) -> Seq<char>
    decreases s.len(),
{
    if s.len() == 0 {
        Seq::empty()
    } else if s[0] == '_' {
        if s.len() >= 2 && s[1] == '_' {
            rem_after_seg(s.skip(2))
        } else {
            s.drop_first()
        }
    } else {
        rem_after_seg(s.drop_first())
    }
}

/// The remainder is strictly shorter than a nonempty input.
pub proof fn lemma_rem_shrinks(s: Seq<char>)
    requires
        s.len() > 0,
    ensures
        rem_after_seg(s).len() < s.len(),
    decreases s.len(),
{
    if s[0] == '_' {
        if s.len() >= 2 && s[1] == '_' {
            let t = s.skip(2);
            assert(rem_after_seg(s) == rem_after_seg(t));
            if t.len() > 0 {
                lemma_rem_shrinks(t);
            } else {
                assert(rem_after_seg(t).len() == 0);
            }
        } else {
            assert(rem_after_seg(s) == s.drop_first());
        }
    } else {
        let t = s.drop_first();
        assert(rem_after_seg(s) == rem_after_seg(t));
        if t.len() > 0 {
            lemma_rem_shrinks(t);
        } else {
            assert(rem_after_seg(t).len() == 0);
        }
    }
}

/// All segments read back from an escaped join.
pub open spec fn decode_ns(s: Seq<char>) -> Seq<Seq<char>>
    decreases s.len(),
    via decode_ns_dec
{
    if s.len() == 0 {
        Seq::empty()
    } else {
        seq![first_seg(s)] + decode_ns(rem_after_seg(s))
    }
}

#[via_fn]
proof fn decode_ns_dec(s: Seq<char>) {
    if s.len() > 0 {
        lemma_rem_shrinks(s);
    }
}

/// Reading one escaped segment and its separator off the front of a join
/// recovers the segment exactly, provided the text after the separator does
/// not begin with an underscore.
pub proof fn lemma_first_seg_roundtrip(seg: Seq<char>, tail: Seq<char>)
    requires
        tail.len() == 0 || tail[0] != '_',
    ensures
        first_seg(escaped(seg) + "_"@ + tail) == seg,
        rem_after_seg(escaped(seg) + "_"@ + tail) == tail,
    decreases seg.len(),
{
    reveal_strlit("_");
    let s = escaped(seg) + "_"@ + tail;
    if seg.len() == 0 {
        assert(s[0] == '_');
        assert(s.len() == 1 + tail.len());
        if tail.len() == 0 {
            assert(first_seg(s) =~= seg);
            assert(rem_after_seg(s) =~= tail);
        } else {
            assert(s[1] == tail[0]);
            assert(s[1] != '_');
            assert(first_seg(s) =~= seg);
            assert(s.drop_first() =~= tail);
        }
    } else {
        let c = seg[0];
        let rest = seg.drop_first();
        lemma_first_seg_roundtrip(rest, tail);
        if c == '_' {
            assert(s[0] == '_');
            assert(s[1] == '_');
            assert(s.len() >= 2);
            assert(s.skip(2) =~= escaped(rest) + "_"@ + tail);
            assert(first_seg(s) == seq!['_'] + first_seg(s.skip(2)));
            assert(first_seg(s) =~= seg);
            assert(rem_after_seg(s) == rem_after_seg(s.skip(2)));
        } else {
            assert(s[0] == c);
            assert(s.drop_first() =~= escaped(rest) + "_"@ + tail);
            assert(first_seg(s) == seq![c] + first_seg(s.drop_first()));
            assert(first_seg(s) =~= seg);
            assert(rem_after_seg(s) == rem_after_seg(s.drop_first()));
        }
    }
}

/// A recoverable segment escapes to text led by its own first character.
pub proof fn lemma_escaped_head(seg: Seq<char>)
    requires
        seg_ok(seg),
    ensures
        escaped(seg).len() > 0,
        escaped(seg)[0] == seg[0],
{
}

/// Decoding inverts the escaped join on recoverable segments.
pub proof fn lemma_decode_roundtrip(ns: Seq<Seq<char>>)
    requires
        all_segs_ok(ns),
    ensures
        decode_ns(ns_prefix_c(ns)) == ns,
    decreases ns.len(),
{
    reveal_strlit("_");
    if ns.len() == 0 {
        assert(decode_ns(ns_prefix_c(ns)) =~= ns);
    } else {
        let seg = ns[0];
        let rest = ns.drop_first();
        assert(all_segs_ok(rest)) by {
            assert(forall|i: int| 0 <= i < rest.len() ==> rest[i] == ns[i + 1]);
        }
        lemma_decode_roundtrip(rest);
        let tail = ns_prefix_c(rest);
        if rest.len() > 0 {
            lemma_escaped_head(rest[0]);
            assert(tail[0] == rest[0][0]);
            assert(tail[0] != '_');
        }
        lemma_escaped_head(seg);
        lemma_first_seg_roundtrip(seg, tail);
        let s = ns_prefix_c(ns);
        assert(s == escaped(seg) + "_"@ + tail);
        assert(s.len() > 0);
        assert(decode_ns(s) == seq![first_seg(s)] + decode_ns(rem_after_seg(s)));
        assert(decode_ns(s) =~= ns);
    }
}

/// Escaped joining is injective: two namespaces of recoverable segments that
/// join to the same flat prefix are the same namespace.  Doubling the
/// underscores is what makes this hold; without it, `["foo_bar"]` and
/// `["foo", "bar"]` would collide.
pub proof fn lemma_escaped_join_injective(a: Seq<Seq<char>>, b: Seq<Seq<char>>)
    requires
        all_segs_ok(a),
        all_segs_ok(b),
        ns_prefix_c(a) == ns_prefix_c(b),
    ensures
        a == b,
{
    lemma_decode_roundtrip(a);
    lemma_decode_roundtrip(b);
}

/// Whole flat paths stay collision-free for one class name: equal symbols
/// mean equal namespaces.
pub proof fn lemma_c_path_injective(a: Seq<Seq<char>>, b: Seq<Seq<char>>, name: Seq<char>)
    requires
        all_segs_ok(a),
        all_segs_ok(b),
        c_path_text(a, name) == c_path_text(b, name),
    ensures
        a == b,
{
    let x = ns_prefix_c(a);
    let y = ns_prefix_c(b);
    let n = escaped(name);
    assert((x + n).len() == (y + n).len());
    assert(x.len() == y.len());
    assert forall|i: int| 0 <= i < x.len() implies x[i] == y[i] by {
        assert((x + n)[i] == x[i]);
        assert((y + n)[i] == y[i]);
    }
    assert(x =~= y);
    lemma_escaped_join_injective(a, b);
}

} // verus!
