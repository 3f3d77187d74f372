//! The zone-file template: a text with placeholders for the address and for
//! the serial, compiled once into segments and rendered for every update.

use crate::addr::{dotted, Ipv4Addr};
use crate::clock::{utc_display, Timestamp};
use crate::text::{chars_of, find, first_occurrence, lemma_occurrence_from};
use vstd::prelude::*;
use vstd::string::*;

verus! {

/// The placeholder that stands for the address.
pub open spec fn ip_token() -> Seq<char> {
    "{%IP%}"@
}

/// The placeholder that stands for the serial.
pub open spec fn serial_token() -> Seq<char> {
    "{%SERIAL%}"@
}

/// One piece of a compiled template.
#[derive(Debug, PartialEq, Eq)]
pub enum TemplateSegment {
    /// Text that is rendered as it stands.
    Static(String),
    /// The place of the address.
    Ip,
    /// The place of the serial.
    Serial,
}

/// What a segment is, with its text as a sequence of characters.
pub enum SegmentView {
    Static(Seq<char>),
    Ip,
    Serial,
}

impl View for TemplateSegment {
    type V = SegmentView;

    open spec fn view(&self) -> SegmentView {
        match self {
            TemplateSegment::Static(text) => SegmentView::Static(text@),
            TemplateSegment::Ip => SegmentView::Ip,
            TemplateSegment::Serial => SegmentView::Serial,
        }
    }
}

/// The views of a run of segments.
pub open spec fn segment_views(segments: Seq<TemplateSegment>) -> Seq<SegmentView> {
    segments.map_values(|segment: TemplateSegment| segment@)
}

/// The segments of a text that holds no serial placeholder: the text between
/// the address placeholders, with an address segment at the place of each.
pub open spec fn ip_split(text: Seq<char>) -> Seq<SegmentView>
    decreases text.len(),
{
    match first_occurrence(text, ip_token()) {
        Some(at) => {
            proof {
                lemma_occurrence_from(text, ip_token(), 0);
                reveal_strlit("{%IP%}");
            }
            seq![SegmentView::Static(text.subrange(0, at)), SegmentView::Ip] + ip_split(
                text.skip(at + ip_token().len()),
            )
        },
        None => seq![SegmentView::Static(text)],
    }
}

/// The segments of a template text: the text is split at the serial
/// placeholders first, and each part at the address placeholders.
pub open spec fn compiled(text: Seq<char>) -> Seq<SegmentView>
    decreases text.len(),
{
    match first_occurrence(text, serial_token()) {
        Some(at) => {
            proof {
                lemma_occurrence_from(text, serial_token(), 0);
                reveal_strlit("{%SERIAL%}");
            }
            ip_split(text.subrange(0, at)) + seq![SegmentView::Serial] + compiled(
                text.skip(at + serial_token().len()),
            )
        },
        None => ip_split(text),
    }
}

/// What a segment contributes to the rendered text.
pub open spec fn segment_text(segment: SegmentView, ip: Seq<char>, serial: Seq<char>) -> Seq<
    char,
> {
    match segment {
        SegmentView::Static(text) => text,
        SegmentView::Ip => ip,
        SegmentView::Serial => serial,
    }
}

/// The texts of the segments, one after the other.
pub open spec fn rendered(segments: Seq<SegmentView>, ip: Seq<char>, serial: Seq<char>) -> Seq<
    char,
>
    decreases segments.len(),
{
    if segments.len() == 0 {
        Seq::empty()
    } else {
        rendered(segments.drop_last(), ip, serial) + segment_text(segments.last(), ip, serial)
    }
}

/// The room that is set aside for an address in the rendered text.
pub const MAX_IP_SIZE: usize = 15;

/// The room that is set aside for a serial in the rendered text.
pub const MAX_SERIAL_SIZE: usize = 19;

/// The room that is set aside for a segment: the length of a static text,
/// and a fixed number of characters for a placeholder.
pub open spec fn segment_size(segment: SegmentView) -> nat {
    match segment {
        SegmentView::Static(text) => text.len(),
        SegmentView::Ip => MAX_IP_SIZE as nat,
        SegmentView::Serial => MAX_SERIAL_SIZE as nat,
    }
}

/// The room that is set aside for the segments together.
pub open spec fn size_estimate(segments: Seq<SegmentView>) -> nat
    decreases segments.len(),
{
    if segments.len() == 0 {
        0
    } else {
        size_estimate(segments.drop_last()) + segment_size(segments.last())
    }
}

/// Whether `result` is what rendering the segments for `ip` and `now`
/// gives: the rendered text where `now` has a serial, and else an error.
pub open spec fn is_rendering(
    segments: Seq<SegmentView>,
    ip: Ipv4Addr,
    now: Timestamp,
    result: Result<String, RenderError>,
) -> bool {
    match utc_display(now.secs, now.nanos) {
        Some(serial) => result matches Ok(text) && text@ == rendered(segments, dotted(ip), serial),
        None => result == Err::<String, RenderError>(RenderError::Timestamp),
    }
}

/// Rendering is deterministic: two renderings of the same template for the
/// same address and the same time give the same text, character by
/// character, or fail alike.
pub proof fn lemma_render_deterministic(
    segments: Seq<SegmentView>,
    ip: Ipv4Addr,
    now: Timestamp,
    first: Result<String, RenderError>,
    second: Result<String, RenderError>,
)
    requires
        is_rendering(segments, ip, now, first),
        is_rendering(segments, ip, now, second),
    ensures
        match first {
            Ok(text) => second matches Ok(other) && other@ == text@,
            Err(error) => second == Err::<String, RenderError>(error),
        },
{
}

/// Calls `String::with_capacity`, which gives an empty text with room for
/// `capacity` bytes and panics where that is more than `isize::MAX`.
pub assume_specification[ String::with_capacity ](capacity: usize) -> (text: String)
    requires
        capacity <= isize::MAX,
    ensures
        text@ == Seq::<char>::empty(),
;

/// Why a template could not be rendered.
#[derive(Clone, Copy, Debug, PartialEq, Eq, Structural)]
pub enum RenderError {
    /// The time has no serial: the calendar cannot hold it.
    Timestamp,
}

/// A compiled template.
#[derive(Debug, PartialEq, Eq)]
pub struct Template {
    segments: Vec<TemplateSegment>,
}

impl View for Template {
    type V = Seq<SegmentView>;

    closed spec fn view(&self) -> Seq<SegmentView> {
        segment_views(self.segments@)
    }
}

impl Clone for TemplateSegment {
    fn clone(&self) -> (copy: Self)
        ensures
            copy@ == self@,
    {
        match self {
            TemplateSegment::Static(text) => TemplateSegment::Static(text.clone()),
            TemplateSegment::Ip => TemplateSegment::Ip,
            TemplateSegment::Serial => TemplateSegment::Serial,
        }
    }
}

impl Clone for Template {
    fn clone(&self) -> (copy: Self)
        ensures
            copy@ == self@,
    {
        let mut segments: Vec<TemplateSegment> = Vec::new();
        let mut at: usize = 0;
        while at < self.segments.len()
            invariant
                at <= self.segments.len(),
                segment_views(segments@) == segment_views(self.segments@).take(at as int),
            decreases self.segments.len() - at,
        {
            let ghost before = segment_views(segments@);
            let copy = self.segments[at].clone();
            segments.push(copy);
            at += 1;
            assert(segment_views(segments@) =~= before.push(copy@));
        }
        assert(segment_views(self.segments@).take(at as int) =~= segment_views(self.segments@));
        Template { segments }
    }
}

/// Appends to `segments` the segments of `text[from..to]`, a part of the
/// template between two serial placeholders.
fn push_ip_split(
    segments: &mut Vec<TemplateSegment>,
    template: &str,
    text: &Vec<char>,
    from: usize,
    to: usize,
)
    requires
        text@ == template@,
        from <= to <= text.len(),
    ensures
        segment_views(final(segments)@) == segment_views(old(segments)@) + ip_split(
            text@.subrange(from as int, to as int),
        ),
{
    let token = chars_of("{%IP%}");
    proof {
        reveal_strlit("{%IP%}");
    }
    let mut start: usize = from;
    loop
        invariant_except_break
            segment_views(segments@) + ip_split(text@.subrange(start as int, to as int))
                == segment_views(old(segments)@) + ip_split(
                text@.subrange(from as int, to as int),
            ),
        invariant
            text@ == template@,
            token@ == ip_token(),
            token@.len() == 6,
            from <= start <= to <= text.len(),
        ensures
            segment_views(segments@) == segment_views(old(segments)@) + ip_split(
                text@.subrange(from as int, to as int),
            ),
        decreases to - start,
    {
        let ghost part = text@.subrange(start as int, to as int);
        let ghost before = segment_views(segments@);
        match find(text, &token, start, to) {
            Some(at) => {
                let piece = template.substring_char(start, at).to_owned();
                segments.push(TemplateSegment::Static(piece));
                segments.push(TemplateSegment::Ip);
                proof {
                    assert(part.subrange(0, at - start) =~= text@.subrange(
                        start as int,
                        at as int,
                    ));
                    assert(part.skip(at - start + 6) =~= text@.subrange(at + 6, to as int));
                    assert(segment_views(segments@) =~= before + seq![
                        SegmentView::Static(part.subrange(0, at - start)),
                        SegmentView::Ip,
                    ]);
                    assert(before + ip_split(part) =~= segment_views(segments@) + ip_split(
                        part.skip(at - start + 6),
                    ));
                }
                start = at + 6;
            },
            None => {
                let piece = template.substring_char(start, to).to_owned();
                segments.push(TemplateSegment::Static(piece));
                proof {
                    assert(segment_views(segments@) =~= before + seq![SegmentView::Static(part)]);
                }
                break ;
            },
        }
    }
}

impl Template {
    /// Compiles a template text. Every text is a template: one without
    /// placeholders is a single static segment.
    pub fn from_str(template: &str) -> (result: Template)
        ensures
            result@ == compiled(template@),
    {
        let text = chars_of(template);
        let token = chars_of("{%SERIAL%}");
        proof {
            reveal_strlit("{%SERIAL%}");
        }
        let mut segments: Vec<TemplateSegment> = Vec::new();
        let mut start: usize = 0;
        proof {
            assert(text@.skip(0) =~= text@);
            assert(segment_views(segments@) + compiled(text@) =~= compiled(text@));
        }
        loop
            invariant_except_break
                segment_views(segments@) + compiled(text@.skip(start as int)) == compiled(text@),
            invariant
                text@ == template@,
                token@ == serial_token(),
                token@.len() == 10,
                start <= text.len(),
            ensures
                segment_views(segments@) == compiled(text@),
            decreases text.len() - start,
        {
            let ghost rest = text@.skip(start as int);
            let ghost before = segment_views(segments@);
            assert(rest =~= text@.subrange(start as int, text.len() as int));
            match find(&text, &token, start, text.len()) {
                Some(at) => {
                    push_ip_split(&mut segments, template, &text, start, at);
                    segments.push(TemplateSegment::Serial);
                    proof {
                        assert(rest.subrange(0, at - start) =~= text@.subrange(
                            start as int,
                            at as int,
                        ));
                        assert(rest.skip(at - start + 10) =~= text@.skip(at + 10));
                        assert(segment_views(segments@) =~= before + ip_split(
                            rest.subrange(0, at - start),
                        ) + seq![SegmentView::Serial]);
                        assert(before + compiled(rest) =~= segment_views(segments@) + compiled(
                            rest.skip(at - start + 10),
                        ));
                    }
                    start = at + 10;
                },
                None => {
                    push_ip_split(&mut segments, template, &text, start, text.len());
                    break ;
                },
            }
        }
        Template { segments }
    }

    /// The segments of the template, in order.
    pub fn segments(&self) -> (segments: &Vec<TemplateSegment>)
        ensures
            segment_views(segments@) == self@,
    {
        &self.segments
    }

    /// The room to set aside for a rendered text: the lengths of the static
    /// segments, and a fixed number of characters for each placeholder. It
    /// is an estimate, and the largest number there is where the sum is
    /// larger.
    pub fn estimated_size(&self) -> (size: usize)
        ensures
            size == if size_estimate(self@) > usize::MAX {
                usize::MAX as nat
            } else {
                size_estimate(self@)
            },
    {
        let mut size: usize = 0;
        let mut done: usize = 0;
        while done < self.segments.len()
            invariant
                done <= self.segments.len(),
                size == if size_estimate(segment_views(self.segments@).take(done as int))
                    > usize::MAX {
                    usize::MAX as nat
                } else {
                    size_estimate(segment_views(self.segments@).take(done as int))
                },
            decreases self.segments.len() - done,
        {
            let ghost views = segment_views(self.segments@);
            proof {
                assert(views.take(done + 1).drop_last() =~= views.take(done as int));
            }
            let room = match &self.segments[done] {
                TemplateSegment::Static(text) => text.as_str().unicode_len(),
                TemplateSegment::Ip => MAX_IP_SIZE,
                TemplateSegment::Serial => MAX_SERIAL_SIZE,
            };
            size = size.saturating_add(room);
            done += 1;
        }
        proof {
            let views = segment_views(self.segments@);
            assert(views.take(done as int) =~= views);
        }
        size
    }

    /// Renders the template with the given texts in the place of the address
    /// and of the serial.
    pub fn render_with(&self, ip: &str, serial: &str) -> (text: String)
        ensures
            text@ == rendered(self@, ip@, serial@),
    {
        let size = self.estimated_size();
        let mut buffer = if size <= isize::MAX as usize {
            String::with_capacity(size)
        } else {
            String::new()
        };
        let mut done: usize = 0;
        while done < self.segments.len()
            invariant
                done <= self.segments.len(),
                buffer@ == rendered(segment_views(self.segments@).take(done as int), ip@, serial@),
            decreases self.segments.len() - done,
        {
            let ghost views = segment_views(self.segments@);
            proof {
                assert(views.take(done + 1).drop_last() =~= views.take(done as int));
            }
            match &self.segments[done] {
                TemplateSegment::Static(text) => buffer.append(text.as_str()),
                TemplateSegment::Ip => buffer.append(ip),
                TemplateSegment::Serial => buffer.append(serial),
            }
            done += 1;
        }
        proof {
            let views = segment_views(self.segments@);
            assert(views.take(done as int) =~= views);
        }
        buffer
    }

    /// Renders the template for an address and a time: every address segment
    /// becomes the dotted-decimal text of `ip`, every serial segment the
    /// serial of `now`. Fails only where `now` has no serial.
    pub fn render(&self, ip: &Ipv4Addr, now: Timestamp) -> (result: Result<String, RenderError>)
        ensures
            is_rendering(self@, *ip, now, result),
    {
        match now.serial() {
            Some(serial) => {
                let address = ip.to_text();
                Ok(self.render_with(address.as_str(), serial.as_str()))
            },
            None => Err(RenderError::Timestamp),
        }
    }
}

} // verus!
