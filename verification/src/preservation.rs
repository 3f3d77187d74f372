//! Compiling and rendering preserve the segments that a template text was
//! written from.

use crate::template::{
    compiled, ip_split, ip_token, rendered, segment_text, serial_token, SegmentView,
};
use crate::text::{
    first_occurrence, lemma_first_occurrence_is, lemma_first_occurrence_none,
    lemma_occurrence_from, occurs_at,
};
use vstd::prelude::*;

verus! {

/// The template text that one writes for a run of segments: the static
/// texts as they are, and the placeholder of each other segment.
pub open spec fn source_text(segments: Seq<SegmentView>) -> Seq<char> {
    rendered(segments, ip_token(), serial_token())
}

/// Where the segment `k` begins in the template text.
pub open spec fn start_of(segments: Seq<SegmentView>, k: int) -> int {
    source_text(segments.take(k)).len() as int
}

/// Whether a segment of the kind `kind` begins at `at` in the template text.
pub open spec fn placeholder_at(segments: Seq<SegmentView>, kind: SegmentView, at: int) -> bool {
    exists|k: int|
        0 <= k < segments.len() && segments[k] == kind && #[trigger] start_of(segments, k) == at
}

/// Whether the template text holds the placeholders of its segments and no
/// others: wherever a placeholder stands in the text, a segment of that
/// kind begins.
pub open spec fn faithful(segments: Seq<SegmentView>) -> bool {
    &&& forall|at: int| #[trigger]
        occurs_at(source_text(segments), ip_token(), at) ==> placeholder_at(
            segments,
            SegmentView::Ip,
            at,
        )
    &&& forall|at: int| #[trigger]
        occurs_at(source_text(segments), serial_token(), at) ==> placeholder_at(
            segments,
            SegmentView::Serial,
            at,
        )
}

/// Rendering two runs of segments one after the other renders their
/// concatenation.
pub proof fn lemma_rendered_concat(
    first: Seq<SegmentView>,
    second: Seq<SegmentView>,
    ip: Seq<char>,
    serial: Seq<char>,
)
    ensures
        rendered(first + second, ip, serial) == rendered(first, ip, serial) + rendered(
            second,
            ip,
            serial,
        ),
    decreases second.len(),
{
    if second.len() == 0 {
        assert(first + second =~= first);
        assert(rendered(first, ip, serial) + rendered(second, ip, serial) =~= rendered(
            first,
            ip,
            serial,
        ));
    } else {
        lemma_rendered_concat(first, second.drop_last(), ip, serial);
        assert((first + second).drop_last() =~= first + second.drop_last());
        assert(rendered(first + second, ip, serial) =~= rendered(first, ip, serial) + rendered(
            second,
            ip,
            serial,
        ));
    }
}

/// One segment renders to its text.
proof fn lemma_rendered_one(segment: SegmentView, ip: Seq<char>, serial: Seq<char>)
    ensures
        rendered(seq![segment], ip, serial) == segment_text(segment, ip, serial),
{
    reveal_with_fuel(rendered, 2);
    let one = seq![segment];
    assert(one.drop_last() =~= Seq::<SegmentView>::empty());
    assert(rendered(one, ip, serial) =~= segment_text(segment, ip, serial));
}

/// A run of segments renders to the text of its first segment, followed by
/// what the others render to.
proof fn lemma_rendered_first(segments: Seq<SegmentView>, ip: Seq<char>, serial: Seq<char>)
    requires
        segments.len() > 0,
    ensures
        rendered(segments, ip, serial) == segment_text(segments[0], ip, serial) + rendered(
            segments.drop_first(),
            ip,
            serial,
        ),
{
    assert(segments =~= seq![segments[0]] + segments.drop_first());
    lemma_rendered_concat(seq![segments[0]], segments.drop_first(), ip, serial);
    lemma_rendered_one(segments[0], ip, serial);
}

/// A pattern stands in the rest of a text where it stands in the text.
proof fn lemma_occurs_skip(text: Seq<char>, pattern: Seq<char>, n: int, at: int)
    requires
        0 <= n <= text.len(),
        0 <= at,
    ensures
        occurs_at(text.skip(n), pattern, at) == occurs_at(text, pattern, n + at),
{
    if at + pattern.len() <= text.len() - n {
        assert(text.skip(n).subrange(at, at + pattern.len()) =~= text.subrange(
            n + at,
            n + at + pattern.len(),
        ));
    }
}

/// A pattern stands in the beginning of a text where it stands in the text
/// and ends within that beginning.
proof fn lemma_occurs_take(text: Seq<char>, pattern: Seq<char>, n: int, at: int)
    requires
        0 <= n <= text.len(),
    ensures
        occurs_at(text.subrange(0, n), pattern, at) == (occurs_at(text, pattern, at) && at
            + pattern.len() <= n),
{
    if 0 <= at && at + pattern.len() <= n {
        assert(text.subrange(0, n).subrange(at, at + pattern.len()) =~= text.subrange(
            at,
            at + pattern.len(),
        ));
    }
}

/// Where a pattern does not stand in the first `n` places of a text, its
/// first occurrence in the rest is its first occurrence in the text.
proof fn lemma_first_occurrence_skip(text: Seq<char>, pattern: Seq<char>, n: int)
    requires
        0 <= n <= text.len(),
        forall|at: int| 0 <= at < n ==> !occurs_at(text, pattern, at),
    ensures
        match first_occurrence(text, pattern) {
            Some(q) => q >= n && first_occurrence(text.skip(n), pattern) == Some(q - n),
            None => first_occurrence(text.skip(n), pattern) is None,
        },
{
    lemma_occurrence_from(text, pattern, 0);
    match first_occurrence(text, pattern) {
        Some(q) => {
            lemma_occurs_skip(text, pattern, n, q - n);
            assert forall|at: int| 0 <= at < q - n implies !occurs_at(
                text.skip(n),
                pattern,
                at,
            ) by {
                lemma_occurs_skip(text, pattern, n, at);
            }
            lemma_first_occurrence_is(text.skip(n), pattern, q - n);
        },
        None => {
            assert forall|at: int| 0 <= at implies !occurs_at(text.skip(n), pattern, at) by {
                lemma_occurs_skip(text, pattern, n, at);
            }
            lemma_first_occurrence_none(text.skip(n), pattern);
        },
    }
}

/// What a text without serial placeholders renders to, by its first address
/// placeholder.
proof fn lemma_ip_split_first(text: Seq<char>, ip: Seq<char>, serial: Seq<char>)
    ensures
        match first_occurrence(text, ip_token()) {
            Some(q) => rendered(ip_split(text), ip, serial) == text.subrange(0, q) + ip + rendered(
                ip_split(text.skip(q + 6)),
                ip,
                serial,
            ),
            None => rendered(ip_split(text), ip, serial) == text,
        },
{
    reveal_strlit("{%IP%}");
    match first_occurrence(text, ip_token()) {
        Some(q) => {
            let head = seq![SegmentView::Static(text.subrange(0, q)), SegmentView::Ip];
            let tail = ip_split(text.skip(q + 6));
            lemma_rendered_concat(head, tail, ip, serial);
            lemma_rendered_concat(
                seq![SegmentView::Static(text.subrange(0, q))],
                seq![SegmentView::Ip],
                ip,
                serial,
            );
            lemma_rendered_one(SegmentView::Static(text.subrange(0, q)), ip, serial);
            lemma_rendered_one(SegmentView::Ip, ip, serial);
            assert(head =~= seq![SegmentView::Static(text.subrange(0, q))] + seq![
                SegmentView::Ip,
            ]);
        },
        None => {
            lemma_rendered_one(SegmentView::Static(text), ip, serial);
        },
    }
}

/// What a template text renders to, by its first serial placeholder.
proof fn lemma_compiled_first(text: Seq<char>, ip: Seq<char>, serial: Seq<char>)
    ensures
        match first_occurrence(text, serial_token()) {
            Some(q) => rendered(compiled(text), ip, serial) == rendered(
                ip_split(text.subrange(0, q)),
                ip,
                serial,
            ) + serial + rendered(compiled(text.skip(q + 10)), ip, serial),
            None => rendered(compiled(text), ip, serial) == rendered(ip_split(text), ip, serial),
        },
{
    reveal_strlit("{%SERIAL%}");
    match first_occurrence(text, serial_token()) {
        Some(q) => {
            let head = ip_split(text.subrange(0, q));
            let tail = compiled(text.skip(q + 10));
            lemma_rendered_concat(head + seq![SegmentView::Serial], tail, ip, serial);
            lemma_rendered_concat(head, seq![SegmentView::Serial], ip, serial);
            lemma_rendered_one(SegmentView::Serial, ip, serial);
        },
        None => {},
    }
}

/// The beginning of a text that holds no address placeholder is rendered as
/// it stands.
proof fn lemma_ip_split_prefix(text: Seq<char>, n: int, ip: Seq<char>, serial: Seq<char>)
    requires
        0 <= n <= text.len(),
        forall|at: int| 0 <= at < n ==> !occurs_at(text, ip_token(), at),
    ensures
        rendered(ip_split(text), ip, serial) == text.subrange(0, n) + rendered(
            ip_split(text.skip(n)),
            ip,
            serial,
        ),
{
    reveal_strlit("{%IP%}");
    lemma_first_occurrence_skip(text, ip_token(), n);
    lemma_ip_split_first(text, ip, serial);
    lemma_ip_split_first(text.skip(n), ip, serial);
    lemma_occurrence_from(text, ip_token(), 0);
    match first_occurrence(text, ip_token()) {
        Some(q) => {
            assert(text.skip(n).subrange(0, q - n) =~= text.subrange(n, q));
            assert(text.skip(n).skip(q - n + 6) =~= text.skip(q + 6));
            assert(text.subrange(0, q) =~= text.subrange(0, n) + text.subrange(n, q));
            assert(text.subrange(0, q) + ip + rendered(ip_split(text.skip(q + 6)), ip, serial)
                =~= text.subrange(0, n) + (text.subrange(n, q) + ip + rendered(
                ip_split(text.skip(q + 6)),
                ip,
                serial,
            )));
        },
        None => {
            assert(text =~= text.subrange(0, n) + text.skip(n));
        },
    }
}

/// The beginning of a template text that holds no placeholder is rendered
/// as it stands.
proof fn lemma_compiled_prefix(text: Seq<char>, n: int, ip: Seq<char>, serial: Seq<char>)
    requires
        0 <= n <= text.len(),
        forall|at: int| 0 <= at < n ==> !occurs_at(text, ip_token(), at),
        forall|at: int| 0 <= at < n ==> !occurs_at(text, serial_token(), at),
    ensures
        rendered(compiled(text), ip, serial) == text.subrange(0, n) + rendered(
            compiled(text.skip(n)),
            ip,
            serial,
        ),
{
    reveal_strlit("{%SERIAL%}");
    lemma_first_occurrence_skip(text, serial_token(), n);
    lemma_compiled_first(text, ip, serial);
    lemma_compiled_first(text.skip(n), ip, serial);
    lemma_occurrence_from(text, serial_token(), 0);
    match first_occurrence(text, serial_token()) {
        Some(q) => {
            let part = text.subrange(0, q);
            assert forall|at: int| 0 <= at < n implies !occurs_at(part, ip_token(), at) by {
                lemma_occurs_take(text, ip_token(), q, at);
            }
            lemma_ip_split_prefix(part, n, ip, serial);
            assert(part.subrange(0, n) =~= text.subrange(0, n));
            assert(part.skip(n) =~= text.skip(n).subrange(0, q - n));
            assert(text.skip(n).skip(q - n + 10) =~= text.skip(q + 10));
            let inner = rendered(ip_split(part.skip(n)), ip, serial);
            let rest = rendered(compiled(text.skip(q + 10)), ip, serial);
            assert((text.subrange(0, n) + inner) + serial + rest =~= text.subrange(0, n) + (inner
                + serial + rest));
        },
        None => {
            lemma_ip_split_prefix(text, n, ip, serial);
        },
    }
}

/// The segments after the first one hold no placeholders but their own if
/// all the segments do.
proof fn lemma_faithful_rest(segments: Seq<SegmentView>)
    requires
        segments.len() > 0,
        faithful(segments),
    ensures
        faithful(segments.drop_first()),
{
    reveal_strlit("{%IP%}");
    reveal_strlit("{%SERIAL%}");
    let rest = segments.drop_first();
    let head = source_text(seq![segments[0]]);
    lemma_rendered_one(segments[0], ip_token(), serial_token());
    lemma_rendered_first(segments, ip_token(), serial_token());
    let text = source_text(segments);
    assert(text.skip(head.len() as int) =~= source_text(rest));
    assert(segments.take(0) =~= Seq::<SegmentView>::empty());
    assert forall|kind: SegmentView, at: int|
        kind != SegmentView::Static(segment_text(kind, ip_token(), serial_token()))
            && placeholder_at(segments, kind, head.len() + at) && 0 <= at implies placeholder_at(
        rest,
        kind,
        at,
    ) by {
        let k = choose|k: int|
            0 <= k < segments.len() && segments[k] == kind && #[trigger] start_of(segments, k)
                == head.len() + at;
        if k == 0 {
            assert(start_of(segments, 0) == 0);
            assert(head.len() > 0);
        } else {
            assert(segments.take(k) =~= seq![segments[0]] + rest.take(k - 1));
            lemma_rendered_concat(
                seq![segments[0]],
                rest.take(k - 1),
                ip_token(),
                serial_token(),
            );
            assert(rest[k - 1] == kind);
            assert(start_of(rest, k - 1) == at);
        }
    }
    assert forall|at: int| #[trigger]
        occurs_at(source_text(rest), ip_token(), at) implies placeholder_at(
        rest,
        SegmentView::Ip,
        at,
    ) by {
        lemma_occurs_skip(text, ip_token(), head.len() as int, at);
        assert(occurs_at(text, ip_token(), head.len() + at));
    }
    assert forall|at: int| #[trigger]
        occurs_at(source_text(rest), serial_token(), at) implies placeholder_at(
        rest,
        SegmentView::Serial,
        at,
    ) by {
        lemma_occurs_skip(text, serial_token(), head.len() as int, at);
        assert(occurs_at(text, serial_token(), head.len() + at));
    }
}

/// No placeholder of a kind begins in the text of the first segment, unless
/// the first segment is that placeholder and it begins at its beginning.
proof fn lemma_first_segment_clear(segments: Seq<SegmentView>, kind: SegmentView, at: int)
    requires
        segments.len() > 0,
        placeholder_at(segments, kind, at),
        segments[0] != kind,
    ensures
        at >= source_text(seq![segments[0]]).len(),
{
    let rest = segments.drop_first();
    let k = choose|k: int|
        0 <= k < segments.len() && segments[k] == kind && #[trigger] start_of(segments, k) == at;
    assert(k >= 1);
    assert(segments.take(k) =~= seq![segments[0]] + rest.take(k - 1));
    lemma_rendered_concat(seq![segments[0]], rest.take(k - 1), ip_token(), serial_token());
}

/// A template that is written by putting static texts and placeholders one
/// after the other, in any order and number, renders to the same texts with
/// the address in the place of every address placeholder and the serial in
/// the place of every serial placeholder. This holds of every run of
/// segments whose text holds no placeholders but its own: a static text
/// that spells a placeholder, alone or together with its neighbours, is
/// read as that placeholder.
pub proof fn lemma_segments_preserved(
    segments: Seq<SegmentView>,
    ip: Seq<char>,
    serial: Seq<char>,
)
    requires
        faithful(segments),
    ensures
        rendered(compiled(source_text(segments)), ip, serial) == rendered(segments, ip, serial),
    decreases segments.len(),
{
    reveal_strlit("{%IP%}");
    reveal_strlit("{%SERIAL%}");
    let text = source_text(segments);
    if segments.len() == 0 {
        assert(text.len() == 0);
        lemma_occurrence_from(text, serial_token(), 0);
        lemma_occurrence_from(text, ip_token(), 0);
        lemma_compiled_first(text, ip, serial);
        lemma_ip_split_first(text, ip, serial);
    } else {
        let first = segments[0];
        let rest = segments.drop_first();
        let head = source_text(seq![first]);
        let n = head.len() as int;
        lemma_rendered_one(first, ip_token(), serial_token());
        lemma_rendered_first(segments, ip_token(), serial_token());
        lemma_rendered_first(segments, ip, serial);
        lemma_faithful_rest(segments);
        lemma_segments_preserved(rest, ip, serial);
        let tail = source_text(rest);
        assert(text == head + tail);
        assert(text.skip(n) =~= tail);
        assert(text.subrange(0, n) =~= head);
        match first {
            SegmentView::Static(_) => {
                assert forall|at: int| 0 <= at < n implies !occurs_at(text, ip_token(), at) by {
                    if occurs_at(text, ip_token(), at) {
                        lemma_first_segment_clear(segments, SegmentView::Ip, at);
                    }
                }
                assert forall|at: int| 0 <= at < n implies !occurs_at(
                    text,
                    serial_token(),
                    at,
                ) by {
                    if occurs_at(text, serial_token(), at) {
                        lemma_first_segment_clear(segments, SegmentView::Serial, at);
                    }
                }
                lemma_compiled_prefix(text, n, ip, serial);
            },
            SegmentView::Serial => {
                assert(text.subrange(0, 10) =~= serial_token());
                lemma_first_occurrence_is(text, serial_token(), 0);
                lemma_compiled_first(text, ip, serial);
                let none = text.subrange(0, 0);
                lemma_occurrence_from(none, ip_token(), 0);
                lemma_ip_split_first(none, ip, serial);
                assert(none + serial + rendered(compiled(tail), ip, serial) =~= serial + rendered(
                    compiled(tail),
                    ip,
                    serial,
                ));
            },
            SegmentView::Ip => {
                assert(n == 6);
                assert(text.subrange(0, 6) =~= ip_token());
                assert(occurs_at(text, ip_token(), 0));
                assert forall|at: int| 0 <= at < n implies !occurs_at(
                    text,
                    serial_token(),
                    at,
                ) by {
                    if occurs_at(text, serial_token(), at) {
                        lemma_first_segment_clear(segments, SegmentView::Serial, at);
                    }
                }
                lemma_first_occurrence_skip(text, serial_token(), n);
                lemma_compiled_first(text, ip, serial);
                lemma_compiled_first(tail, ip, serial);
                lemma_occurrence_from(text, serial_token(), 0);
                match first_occurrence(text, serial_token()) {
                    Some(q) => {
                        let part = text.subrange(0, q);
                        lemma_occurs_take(text, ip_token(), q, 0);
                        lemma_first_occurrence_is(part, ip_token(), 0);
                        lemma_ip_split_first(part, ip, serial);
                        assert(part.skip(6) =~= tail.subrange(0, q - 6));
                        assert(tail.skip(q - 6 + 10) =~= text.skip(q + 10));
                        let inner = rendered(ip_split(part.skip(6)), ip, serial);
                        let after = rendered(compiled(text.skip(q + 10)), ip, serial);
                        assert((part.subrange(0, 0) + ip + inner) + serial + after =~= ip + (inner
                            + serial + after));
                    },
                    None => {
                        lemma_first_occurrence_is(text, ip_token(), 0);
                        lemma_ip_split_first(text, ip, serial);
                        assert(text.subrange(0, 0) + ip + rendered(ip_split(tail), ip, serial)
                            =~= ip + rendered(ip_split(tail), ip, serial));
                    },
                }
            },
        }
    }
}

} // verus!
