//! The output of a job: the latest part of what it wrote.

use crate::json::{
    array_view, json_view, make_value, new_object, no_members, object_insert, text_value, Json,
    JsonNumber, Node,
};
use crate::text::{byte_length, push_char};
use serde_json::Value;
use std::collections::VecDeque;
use vstd::prelude::*;
use vstd::utf8::encode_scalar;

verus! {

/// Where output was written.
#[derive(Debug, Clone, Copy, PartialEq, Eq, Structural)]
pub enum OutputStream {
    Stdout,
    Stderr,
}

/// The name of a stream.
pub open spec fn stream_name(stream: OutputStream) -> Seq<char> {
    match stream {
        OutputStream::Stdout => "stdout"@,
        OutputStream::Stderr => "stderr"@,
    }
}

impl OutputStream {
    /// The name of the stream.
    pub fn as_str(self) -> (name: &'static str)
        ensures
            name@ == stream_name(self),
    {
        match self {
            OutputStream::Stdout => "stdout",
            OutputStream::Stderr => "stderr",
        }
    }
}

/// A piece of output, and where it starts in all that was written.
#[derive(Debug, Clone)]
pub struct JobOutputSegment {
    pub offset: u64,
    pub stream: OutputStream,
    pub text: String,
}

/// The contents of a [`JobOutputSegment`].
#[verifier::ext_equal]
pub struct Segment {
    pub offset: int,
    pub stream: OutputStream,
    pub text: Seq<char>,
}

impl View for JobOutputSegment {
    type V = Segment;

    open spec fn view(&self) -> Segment {
        Segment { offset: self.offset as int, stream: self.stream, text: self.text@ }
    }
}

/// The views of a list of segments.
pub open spec fn segments_view(segments: Seq<JobOutputSegment>) -> Seq<Segment> {
    segments.map_values(|segment: JobOutputSegment| segment@)
}

/// How many bytes a character takes.
pub open spec fn width(c: char) -> nat {
    encode_scalar(c as u32).len()
}

/// How many characters at the front of a text it takes to make up a number of bytes.
pub open spec fn chars_covering(text: Seq<char>, count: int) -> nat
    decreases text.len(),
{
    if count <= 0 || text.len() == 0 {
        0
    } else {
        1 + chars_covering(text.drop_first(), count - width(text.first()))
    }
}

proof fn lemma_width(c: char)
    ensures
        1 <= width(c) <= 4,
{
    vstd::utf8::char_is_scalar(c);
}

proof fn lemma_byte_length_first(text: Seq<char>)
    requires
        text.len() > 0,
    ensures
        byte_length(text) == width(text.first()) + byte_length(text.drop_first()),
{
}

proof fn lemma_byte_length_concat(first: Seq<char>, second: Seq<char>)
    ensures
        byte_length(first + second) == byte_length(first) + byte_length(second),
    decreases first.len(),
{
    if first.len() == 0 {
        assert(first + second =~= second);
    } else {
        lemma_byte_length_concat(first.drop_first(), second);
        assert((first + second).drop_first() =~= first.drop_first() + second);
    }
}

proof fn lemma_byte_length_at_least(text: Seq<char>)
    ensures
        byte_length(text) >= text.len(),
    decreases text.len(),
{
    if text.len() > 0 {
        lemma_width(text.first());
        lemma_byte_length_at_least(text.drop_first());
    }
}

/// What a count of bytes covers: enough characters and no more, unless the text is too short.
proof fn lemma_chars_covering(text: Seq<char>, count: int)
    ensures
        chars_covering(text, count) <= text.len(),
        chars_covering(text, count) < text.len() ==> byte_length(
            text.take(chars_covering(text, count) as int),
        ) >= count,
        byte_length(text) >= count ==> byte_length(text.take(chars_covering(text, count) as int))
            >= count,
        chars_covering(text, count) > 0 ==> byte_length(
            text.take(chars_covering(text, count) - 1),
        ) < count,
        byte_length(text) <= count ==> chars_covering(text, count) == text.len(),
        byte_length(text.take(chars_covering(text, count) as int)) + byte_length(
            text.skip(chars_covering(text, count) as int),
        ) == byte_length(text),
    decreases text.len(),
{
    let k = chars_covering(text, count) as int;
    if count <= 0 || text.len() == 0 {
        assert(text.take(0) =~= Seq::empty());
        assert(text.skip(0) =~= text);
        lemma_byte_length_at_least(text);
    } else {
        let rest = text.drop_first();
        let less = count - width(text.first());
        lemma_chars_covering(rest, less);
        assert(text.take(k).drop_first() =~= rest.take(k - 1));
        assert(text.skip(k) =~= rest.skip(k - 1));
        lemma_byte_length_first(text.take(k));
        if k > 1 {
            assert(text.take(k - 1).drop_first() =~= rest.take(k - 2));
            lemma_byte_length_first(text.take(k - 1));
        } else {
            assert(text.take(k - 1) =~= Seq::empty());
        }
    }
}

proof fn lemma_chars_covering_concat(first: Seq<char>, second: Seq<char>, count: int)
    ensures
        chars_covering(first + second, count) == if byte_length(first) >= count {
            chars_covering(first, count)
        } else {
            first.len() + chars_covering(second, count - byte_length(first))
        },
    decreases first.len(),
{
    if first.len() == 0 {
        assert(first + second =~= second);
    } else {
        assert((first + second).drop_first() =~= first.drop_first() + second);
        assert((first + second).first() == first.first());
        lemma_chars_covering_concat(first.drop_first(), second, count - width(first.first()));
        lemma_width(first.first());
    }
}

fn char_width(c: char) -> (bytes: u64)
    ensures
        bytes == width(c),
{
    proof {
        vstd::utf8::char_is_scalar(c);
    }
    let code: u32 = c as u32;
    if code < 0x80 {
        1
    } else if code < 0x800 {
        2
    } else if code < 0x10000 {
        3
    } else {
        4
    }
}

/// Drops as many characters at the front of a text as it takes to make up a number of bytes, and
/// counts the bytes that were dropped.
pub fn trim_front_bytes(text: &str, count: u64) -> (trimmed: (u64, String))
    requires
        byte_length(text@) <= u64::MAX,
    ensures
        trimmed.0 == byte_length(text@.take(chars_covering(text@, count as int) as int)),
        trimmed.1@ == text@.skip(chars_covering(text@, count as int) as int),
{
    let ghost characters = text@;
    let ghost total = chars_covering(characters, count as int);
    let mut dropped: u64 = 0;
    let mut rest = String::new();
    proof {
        lemma_chars_covering(characters, count as int);
        assert(characters.take(0) =~= Seq::empty());
        assert(characters.skip(0) =~= characters);
        assert(characters.subrange(0, 0) =~= Seq::empty());
    }
    for c in iter: text.chars()
        invariant
            iter.seq() == characters,
            byte_length(characters) <= u64::MAX,
            total == chars_covering(characters, count as int),
            total <= characters.len(),
            if iter.index() < total {
                &&& dropped == byte_length(characters.take(iter.index()))
                &&& dropped < count
                &&& rest@ == Seq::<char>::empty()
                &&& total == iter.index() + chars_covering(
                    characters.skip(iter.index()),
                    count - dropped,
                )
            } else {
                &&& dropped == byte_length(characters.take(total as int))
                &&& rest@ == characters.subrange(total as int, iter.index())
                &&& total < characters.len() ==> dropped >= count
            },
    {
        let ghost i = iter.index();
        proof {
            assert(characters.skip(i).first() == c);
            assert(characters.skip(i).drop_first() =~= characters.skip(i + 1));
            let longer = characters.take(i + 1);
            assert(longer =~= characters.take(i) + seq![c]);
            lemma_byte_length_concat(characters.take(i), seq![c]);
            assert(seq![c].drop_first() =~= Seq::empty());
            assert(byte_length(seq![c]) == width(c) + byte_length(Seq::empty()));
            assert(characters =~= longer + characters.skip(i + 1));
            lemma_byte_length_concat(longer, characters.skip(i + 1));
            lemma_chars_covering(characters, count as int);
            lemma_chars_covering(characters.skip(i + 1), count - dropped - width(c));
        }
        if dropped < count {
            dropped = dropped + char_width(c);
        } else {
            push_char(&mut rest, c);
            assert(rest@ =~= characters.subrange(total as int, i + 1));
        }
    }
    assert(rest@ =~= characters.skip(total as int));
    (dropped, rest)
}

/// The text of a list of segments.
pub open spec fn flat(segments: Seq<Segment>) -> Seq<char>
    decreases segments.len(),
{
    if segments.len() == 0 {
        Seq::empty()
    } else {
        segments.first().text + flat(segments.drop_first())
    }
}

/// A segment without what it takes at its front to make up a number of bytes.
pub open spec fn segment_without(segment: Segment, count: int) -> Segment {
    let dropped = chars_covering(segment.text, count) as int;
    Segment {
        offset: segment.offset + byte_length(segment.text.take(dropped)),
        text: segment.text.skip(dropped),
        ..segment
    }
}

/// Segments without what it takes at their front to make up a number of bytes.
pub open spec fn without_bytes(segments: Seq<Segment>, count: int) -> Seq<Segment>
    decreases segments.len(),
{
    if count <= 0 || segments.len() == 0 {
        segments
    } else {
        let front = segment_without(segments.first(), count);
        if front.text.len() == 0 {
            without_bytes(segments.drop_first(), count - byte_length(segments.first().text))
        } else {
            segments.update(0, front)
        }
    }
}

/// The output of a job.
#[verifier::ext_equal]
pub struct Output {
    pub limit: nat,
    pub next_offset: int,
    pub truncated_before: int,
    pub segments: Seq<Segment>,
}

/// Each segment has text and starts where the one before it ends.
pub open spec fn is_contiguous(segments: Seq<Segment>, start: int, end: int) -> bool
    decreases segments.len(),
{
    if segments.len() == 0 {
        start == end
    } else {
        &&& segments.first().offset == start
        &&& segments.first().text.len() > 0
        &&& is_contiguous(
            segments.drop_first(),
            start + byte_length(segments.first().text),
            end,
        )
    }
}

/// What is kept is the latest part of what was written, within the limit.
pub open spec fn output_wf(output: Output) -> bool {
    &&& 0 <= output.truncated_before <= output.next_offset <= u64::MAX
    &&& output.next_offset - output.truncated_before <= output.limit
    &&& is_contiguous(output.segments, output.truncated_before, output.next_offset)
}

/// The output after a text was written.
pub open spec fn appended(output: Output, stream: OutputStream, text: Seq<char>) -> Output {
    let end = output.next_offset + byte_length(text);
    if text.len() == 0 {
        output
    } else {
        let all = output.segments.push(Segment { offset: output.next_offset, stream, text });
        let kept = without_bytes(all, end - output.truncated_before - output.limit);
        Output {
            next_offset: end,
            truncated_before: end - byte_length(flat(kept)),
            segments: kept,
            ..output
        }
    }
}

/// The output of a job.
#[derive(Debug)]
pub struct JobOutputRingBuffer {
    pub limit: usize,
    pub next_offset: u64,
    pub truncated_before: u64,
    pub segments: VecDeque<JobOutputSegment>,
}

impl View for JobOutputRingBuffer {
    type V = Output;

    open spec fn view(&self) -> Output {
        Output {
            limit: self.limit as nat,
            next_offset: self.next_offset as int,
            truncated_before: self.truncated_before as int,
            segments: segments_view(self.segments@),
        }
    }
}

proof fn lemma_contiguous_push(segments: Seq<Segment>, start: int, end: int, last: Segment)
    requires
        is_contiguous(segments, start, end),
        last.offset == end,
        last.text.len() > 0,
    ensures
        is_contiguous(segments.push(last), start, end + byte_length(last.text)),
    decreases segments.len(),
{
    if segments.len() == 0 {
        let finish = end + byte_length(last.text);
        assert(segments.push(last).drop_first() =~= Seq::empty());
        assert(segments.push(last).first() == last);
        assert(is_contiguous(Seq::empty(), finish, finish));
    } else {
        lemma_contiguous_push(
            segments.drop_first(),
            start + byte_length(segments.first().text),
            end,
            last,
        );
        assert(segments.push(last).drop_first() =~= segments.drop_first().push(last));
    }
}

proof fn lemma_contiguous_length(segments: Seq<Segment>, start: int, end: int)
    requires
        is_contiguous(segments, start, end),
    ensures
        byte_length(flat(segments)) == end - start,
    decreases segments.len(),
{
    if segments.len() > 0 {
        lemma_contiguous_length(
            segments.drop_first(),
            start + byte_length(segments.first().text),
            end,
        );
        lemma_byte_length_concat(segments.first().text, flat(segments.drop_first()));
    }
}

proof fn lemma_flat_push(segments: Seq<Segment>, last: Segment)
    ensures
        flat(segments.push(last)) == flat(segments) + last.text,
    decreases segments.len(),
{
    if segments.len() == 0 {
        assert(segments.push(last).drop_first() =~= Seq::empty());
        assert(segments.push(last).first() == last);
        assert(flat(Seq::empty()) == Seq::<char>::empty());
        assert(flat(segments.push(last)) =~= last.text);
        assert(flat(segments) + last.text =~= last.text);
    } else {
        lemma_flat_push(segments.drop_first(), last);
        assert(segments.push(last).drop_first() =~= segments.drop_first().push(last));
        assert(segments.first().text + (flat(segments.drop_first()) + last.text) =~= (
        segments.first().text + flat(segments.drop_first())) + last.text);
    }
}

proof fn lemma_without_bytes(segments: Seq<Segment>, count: int, start: int, end: int)
    requires
        is_contiguous(segments, start, end),
    ensures
        ({
            let kept = without_bytes(segments, count);
            let all = flat(segments);
            &&& flat(kept) == all.skip(chars_covering(all, count) as int)
            &&& is_contiguous(kept, end - byte_length(flat(kept)), end)
            &&& byte_length(flat(kept)) <= end - start
            &&& count <= end - start ==> byte_length(flat(kept)) <= end - start - count
            &&& count >= end - start && count > 0 ==> kept.len() == 0
        }),
    decreases segments.len(),
{
    let all = flat(segments);
    lemma_contiguous_length(segments, start, end);
    lemma_chars_covering(all, count);
    if count <= 0 || segments.len() == 0 {
        assert(all.skip(0) =~= all);
    } else {
        let front = segments.first();
        let rest = segments.drop_first();
        let middle = start + byte_length(front.text);
        lemma_contiguous_length(rest, middle, end);
        lemma_chars_covering(front.text, count);
        lemma_chars_covering_concat(front.text, flat(rest), count);
        let k = chars_covering(front.text, count) as int;
        if k == front.text.len() {
            lemma_without_bytes(rest, count - byte_length(front.text), middle, end);
            assert(all.skip(chars_covering(all, count) as int) =~= flat(rest).skip(
                chars_covering(flat(rest), count - byte_length(front.text)) as int,
            ));
            assert(front.text.take(k) =~= front.text);
            assert(front.text.skip(k) =~= Seq::empty());
            if byte_length(front.text) >= count {
                lemma_chars_covering(flat(rest), count - byte_length(front.text));
            }
        } else {
            let cut = segment_without(front, count);
            let kept = segments.update(0, cut);
            assert(kept.drop_first() =~= rest);
            assert(flat(kept) =~= all.skip(k));
            lemma_byte_length_concat(cut.text, flat(rest));
            assert(front.text =~= front.text.take(k) + cut.text);
            lemma_byte_length_concat(front.text.take(k), cut.text);
        }
    }
}

impl JobOutputRingBuffer {
    /// What is kept obeys the rules.
    pub open spec fn wf(&self) -> bool {
        output_wf(self@)
    }

    /// No output yet.
    pub fn new(limit: usize) -> (output: Self)
        ensures
            output.wf(),
            output@ == (Output {
                limit: limit as nat,
                next_offset: 0,
                truncated_before: 0,
                segments: Seq::empty(),
            }),
    {
        let output = JobOutputRingBuffer {
            limit,
            next_offset: 0,
            truncated_before: 0,
            segments: VecDeque::new(),
        };
        assert(output@.segments =~= Seq::empty());
        output
    }

    /// Takes note of a text that was written, and keeps no more than the limit allows.
    pub fn append(&mut self, stream: OutputStream, text: &str)
        requires
            old(self).wf(),
            old(self).next_offset + byte_length(text@) <= u64::MAX,
        ensures
            final(self).wf(),
            final(self)@ == appended(old(self)@, stream, text@),
    {
        let ghost before = self@;
        let ghost characters = text@;
        if text.is_empty() {
            return ;
        }
        let added = text.as_bytes().len() as u64;
        let offset = self.next_offset;
        let segment = JobOutputSegment { offset, stream, text: text.to_owned() };
        let ghost all = before.segments.push(segment@);
        self.next_offset = offset + added;
        self.segments.push_back(segment);
        proof {
            assert(self@.segments =~= all);
            lemma_contiguous_push(
                before.segments,
                before.truncated_before,
                before.next_offset,
                segment@,
            );
            lemma_without_bytes(
                all,
                self.next_offset - before.truncated_before - before.limit,
                before.truncated_before,
                self.next_offset as int,
            );
        }
        self.trim_to_limit();
    }

    fn trim_to_limit(&mut self)
        requires
            0 <= old(self).truncated_before <= old(self).next_offset,
            is_contiguous(
                old(self)@.segments,
                old(self)@.truncated_before,
                old(self)@.next_offset,
            ),
        ensures
            final(self).limit == old(self).limit,
            final(self).next_offset == old(self).next_offset,
            final(self)@.segments == without_bytes(
                old(self)@.segments,
                old(self).next_offset - old(self).truncated_before - old(self).limit,
            ),
            final(self)@.truncated_before == final(self)@.next_offset - byte_length(
                flat(final(self)@.segments),
            ),
            final(self).wf(),
    {
        let ghost before = self@;
        let ghost overflow_before = before.next_offset - before.truncated_before - before.limit;
        proof {
            lemma_contiguous_length(
                before.segments,
                before.truncated_before,
                before.next_offset,
            );
        }
        while self.next_offset - self.truncated_before > self.limit as u64
            invariant
                self@.limit == before.limit,
                self@.next_offset == before.next_offset,
                0 <= self@.truncated_before <= self@.next_offset <= u64::MAX,
                is_contiguous(self@.segments, self@.truncated_before, self@.next_offset),
                without_bytes(
                    self@.segments,
                    self@.next_offset - self@.truncated_before - self@.limit,
                ) == without_bytes(before.segments, overflow_before),
            decreases self@.segments.len(), self@.next_offset - self@.truncated_before,
        {
            let ghost earlier = self@;
            let overflow: u64 = (self.next_offset - self.truncated_before) - self.limit as u64;
            let front = match self.segments.pop_front() {
                Some(front) => front,
                None => {
                    assert(earlier.segments =~= Seq::empty());
                    return ;
                },
            };
            let ghost first = earlier.segments.first();
            proof {
                assert(front@ == first);
                assert(self@.segments =~= earlier.segments.drop_first());
                lemma_contiguous_length(
                    earlier.segments,
                    earlier.truncated_before,
                    earlier.next_offset,
                );
                lemma_byte_length_concat(first.text, flat(earlier.segments.drop_first()));
                lemma_chars_covering(first.text, overflow as int);
                lemma_byte_length_at_least(first.text);
            }
            let (trimmed_bytes, trimmed_text) = trim_front_bytes(front.text.as_str(), overflow);
            let ghost k = chars_covering(first.text, overflow as int) as int;
            self.truncated_before = self.truncated_before + trimmed_bytes;
            proof {
                if k == first.text.len() {
                    assert(first.text.take(k) =~= first.text);
                } else {
                    assert(first.text =~= first.text.take(k) + first.text.skip(k));
                    lemma_byte_length_concat(first.text.take(k), first.text.skip(k));
                }
            }
            if !trimmed_text.as_str().is_empty() {
                let cut = JobOutputSegment {
                    offset: front.offset + trimmed_bytes,
                    stream: front.stream,
                    text: trimmed_text,
                };
                self.segments.push_front(cut);
                proof {
                    assert(cut@ == segment_without(first, overflow as int));
                    assert(self@.segments =~= earlier.segments.update(0, cut@));
                    assert(self@.segments.drop_first() =~= earlier.segments.drop_first());
                }
            }
        }
        proof {
            lemma_contiguous_length(self@.segments, self@.truncated_before, self@.next_offset);
        }
    }
}

/// What a reader gets of a segment from an offset on: characters that start before the offset are
/// left out.
pub open spec fn visible_part(segment: Segment, offset: int) -> Segment {
    segment_without(segment, offset - segment.offset)
}

/// What a reader gets from an offset on.
pub open spec fn visible_segments(segments: Seq<Segment>, offset: int) -> Seq<Segment>
    decreases segments.len(),
{
    if segments.len() == 0 {
        Seq::empty()
    } else {
        let earlier = visible_segments(segments.drop_last(), offset);
        let part = visible_part(segments.last(), offset);
        if part.text.len() == 0 {
            earlier
        } else {
            earlier.push(part)
        }
    }
}

/// A segment as a document.
pub open spec fn segment_json(segment: Segment) -> Json {
    Json::Object(
        no_members().insert(
            "offset"@,
            Json::Number(JsonNumber::Unsigned(segment.offset as u64)),
        ).insert("stream"@, Json::Str(stream_name(segment.stream))).insert(
            "text"@,
            Json::Str(segment.text),
        ),
    )
}

/// Segments as documents.
pub open spec fn segments_json(segments: Seq<Segment>) -> Seq<Json> {
    segments.map_values(|segment: Segment| segment_json(segment))
}

/// What a reader gets from an offset on, as documents.
pub open spec fn output_items(output: Output, offset: int) -> Seq<Json> {
    segments_json(visible_segments(output.segments, read_start(output, offset)))
}

fn segment_value(offset: u64, stream: OutputStream, text: String) -> (value: Value)
    ensures
        json_view(value) == segment_json(Segment { offset: offset as int, stream, text: text@ }),
{
    let mut item = new_object();
    object_insert(&mut item, "offset", make_value(Node::Unsigned(offset)));
    object_insert(&mut item, "stream", text_value(stream.as_str()));
    object_insert(&mut item, "text", make_value(Node::Str(text)));
    make_value(Node::Object(item))
}

proof fn lemma_segment_bounds(segments: Seq<Segment>, start: int, end: int, i: int)
    requires
        is_contiguous(segments, start, end),
        0 <= i < segments.len(),
    ensures
        segments[i].text.len() > 0,
        start <= segments[i].offset,
        segments[i].offset + byte_length(segments[i].text) <= end,
    decreases segments.len(),
{
    let middle = start + byte_length(segments.first().text);
    lemma_contiguous_length(segments.drop_first(), middle, end);
    if i > 0 {
        lemma_segment_bounds(segments.drop_first(), middle, end, i - 1);
    }
}

impl JobOutputRingBuffer {
    /// What is kept from an offset on.
    pub fn read_from(&self, offset: u64) -> (items: Vec<Value>)
        requires
            self.wf(),
        ensures
            array_view(items@) == output_items(self@, offset as int),
    {
        let start = if offset >= self.truncated_before {
            offset
        } else {
            self.truncated_before
        };
        let ghost segments = self@.segments;
        let mut items: Vec<Value> = Vec::new();
        assert(segments.take(0) =~= Seq::empty());
        assert(array_view(items@) =~= segments_json(
            visible_segments(segments.take(0), start as int),
        ));
        let mut i: usize = 0;
        while i < self.segments.len()
            invariant
                i <= self.segments@.len(),
                segments == self@.segments,
                self.wf(),
                array_view(items@) == segments_json(
                    visible_segments(segments.take(i as int), start as int),
                ),
            decreases self.segments@.len() - i,
        {
            let segment = &self.segments[i];
            let ghost view = segments[i as int];
            proof {
                lemma_segment_bounds(
                    segments,
                    self@.truncated_before,
                    self@.next_offset,
                    i as int,
                );
                assert(segment@ == view);
                assert(segments.take(i + 1).drop_last() =~= segments.take(i as int));
                assert(segments.take(i + 1).last() == view);
                lemma_chars_covering(view.text, start - view.offset);
            }
            let skip: u64 = if start > segment.offset {
                start - segment.offset
            } else {
                0
            };
            let (skipped, text) = trim_front_bytes(segment.text.as_str(), skip);
            let ghost part = visible_part(view, start as int);
            proof {
                assert(chars_covering(view.text, skip as int) == chars_covering(
                    view.text,
                    start - view.offset,
                ));
                let k = chars_covering(view.text, skip as int) as int;
                assert(view.text =~= view.text.take(k) + view.text.skip(k));
                lemma_byte_length_concat(view.text.take(k), view.text.skip(k));
            }
            if !text.as_str().is_empty() {
                let item = segment_value(segment.offset + skipped, segment.stream, text);
                let ghost shown = visible_segments(segments.take(i as int), start as int);
                let ghost listed = array_view(items@);
                items.push(item);
                proof {
                    assert(array_view(items@) =~= listed.push(json_view(item)));
                    assert(segments_json(shown.push(part)) =~= segments_json(shown).push(
                        segment_json(part),
                    ));
                }
            }
            i += 1;
        }
        assert(segments.take(i as int) =~= segments);
        items
    }
}

/// Of all that was written, the output keeps the longest end that is within the limit and starts
/// with a whole character. Nothing within it is lost or reordered.
pub proof fn law_output_keeps_the_latest_text(output: Output, stream: OutputStream, text: Seq<char>)
    requires
        output_wf(output),
        output.next_offset + byte_length(text) <= u64::MAX,
    ensures
        ({
            let all = flat(output.segments) + text;
            let kept = flat(appended(output, stream, text).segments);
            let dropped = all.len() - kept.len();
            &&& 0 <= dropped
            &&& kept == all.skip(dropped)
            &&& byte_length(kept) <= output.limit
            &&& dropped > 0 ==> byte_length(all.skip(dropped - 1)) > output.limit
        }),
{
    let all = flat(output.segments) + text;
    lemma_contiguous_length(output.segments, output.truncated_before, output.next_offset);
    lemma_byte_length_concat(flat(output.segments), text);
    if text.len() == 0 {
        assert(all =~= flat(output.segments));
        assert(all.skip(0) =~= all);
    } else {
        let segment = Segment { offset: output.next_offset, stream, text };
        let segments = output.segments.push(segment);
        let end = output.next_offset + byte_length(text);
        let count = end - output.truncated_before - output.limit;
        lemma_flat_push(output.segments, segment);
        lemma_contiguous_push(
            output.segments,
            output.truncated_before,
            output.next_offset,
            segment,
        );
        lemma_without_bytes(segments, count, output.truncated_before, end);
        lemma_chars_covering(all, count);
        let k = chars_covering(all, count) as int;
        if k > 0 {
            assert(all =~= all.take(k - 1) + all.skip(k - 1));
            lemma_byte_length_concat(all.take(k - 1), all.skip(k - 1));
        }
    }
}

proof fn lemma_visible_text(segments: Seq<Segment>, start: int, end: int, offset: int)
    requires
        is_contiguous(segments, start, end),
        start <= offset,
    ensures
        flat(visible_segments(segments, offset)) == flat(segments).skip(
            chars_covering(flat(segments), offset - start) as int,
        ),
    decreases segments.len(),
{
    if segments.len() == 0 {
        assert(flat(segments).skip(0) =~= Seq::empty());
    } else {
        let last = segments.last();
        let earlier = segments.drop_last();
        lemma_contiguous_init(segments, start, end);
        let middle = end - byte_length(last.text);
        lemma_visible_text(earlier, start, middle, offset);
        lemma_contiguous_length(earlier, start, middle);
        assert(earlier.push(last) =~= segments);
        lemma_flat_push(earlier, last);
        lemma_chars_covering_concat(flat(earlier), last.text, offset - start);
        lemma_chars_covering(flat(earlier), offset - start);
        lemma_chars_covering(last.text, offset - last.offset);
        let part = visible_part(last, offset);
        let shown = visible_segments(earlier, offset);
        lemma_flat_push(shown, part);
        let k = chars_covering(flat(segments), offset - start) as int;
        if byte_length(flat(earlier)) >= offset - start {
            assert(part.text =~= last.text);
            assert(flat(segments).skip(k) =~= flat(earlier).skip(k) + last.text);
        } else {
            assert(flat(earlier).skip(chars_covering(flat(earlier), offset - start) as int)
                =~= Seq::empty());
            assert(flat(segments).skip(k) =~= part.text);
            assert(flat(shown) + part.text =~= part.text);
        }
    }
}

proof fn lemma_contiguous_init(segments: Seq<Segment>, start: int, end: int)
    requires
        is_contiguous(segments, start, end),
        segments.len() > 0,
    ensures
        is_contiguous(segments.drop_last(), start, end - byte_length(segments.last().text)),
        segments.last().offset == end - byte_length(segments.last().text),
    decreases segments.len(),
{
    let rest = segments.drop_first();
    let middle = start + byte_length(segments.first().text);
    if segments.len() == 1 {
        assert(rest =~= Seq::empty());
        assert(segments.drop_last() =~= Seq::empty());
        assert(is_contiguous(rest, middle, end));
    } else {
        lemma_contiguous_init(rest, middle, end);
        assert(segments.drop_last().drop_first() =~= rest.drop_last());
    }
}

/// What a reader gets, and where it starts, does not change when more is written, as long as it is
/// kept: a read from an offset gives what it gave before, followed by the new text.
pub proof fn law_offsets_stay_valid(
    output: Output,
    stream: OutputStream,
    text: Seq<char>,
    offset: int,
)
    requires
        output_wf(output),
        output.next_offset + byte_length(text) <= u64::MAX,
    ensures
        ({
            let after = appended(output, stream, text);
            &&& output_wf(after)
            &&& after.next_offset == output.next_offset + byte_length(text)
            &&& after.truncated_before >= output.truncated_before
            &&& after.truncated_before <= offset <= output.next_offset ==> flat(
                visible_segments(after.segments, offset),
            ) == flat(visible_segments(output.segments, offset)) + text
        }),
{
    let after = appended(output, stream, text);
    let old_text = flat(output.segments);
    let all = old_text + text;
    lemma_contiguous_length(output.segments, output.truncated_before, output.next_offset);
    if text.len() == 0 {
        assert(flat(visible_segments(output.segments, offset)) + text =~= flat(
            visible_segments(output.segments, offset),
        ));
    } else {
        let segment = Segment { offset: output.next_offset, stream, text };
        let segments = output.segments.push(segment);
        let end = output.next_offset + byte_length(text);
        let count = end - output.truncated_before - output.limit;
        lemma_contiguous_push(
            output.segments,
            output.truncated_before,
            output.next_offset,
            segment,
        );
        lemma_without_bytes(segments, count, output.truncated_before, end);
        lemma_flat_push(output.segments, segment);
        lemma_byte_length_concat(old_text, text);
        if after.truncated_before <= offset <= output.next_offset {
            let dropped = chars_covering(all, count) as int;
            let want = offset - output.truncated_before;
            lemma_chars_covering(all, count);
            lemma_visible_text(
                output.segments,
                output.truncated_before,
                output.next_offset,
                offset,
            );
            lemma_visible_text(after.segments, after.truncated_before, end, offset);
            assert(all =~= all.take(dropped) + all.skip(dropped));
            lemma_byte_length_concat(all.take(dropped), all.skip(dropped));
            lemma_chars_covering_concat(all.take(dropped), all.skip(dropped), want);
            lemma_chars_covering(all.take(dropped), want);
            lemma_chars_covering_concat(old_text, text, want);
            lemma_chars_covering(old_text, want);
            let k = chars_covering(old_text, want) as int;
            lemma_chars_covering(all.skip(dropped), want - byte_length(all.take(dropped)));
            assert(all.skip(dropped).skip(k - dropped) =~= all.skip(k));
            assert(all.skip(k) =~= old_text.skip(k) + text);
        }
    }
}

/// A reader that starts at an offset gets all the text that is kept from there on, once and in
/// order; at most the rest of a character that began before the offset is left out.
pub proof fn law_reader_gets_everything_from_its_offset(output: Output, offset: int)
    requires
        output_wf(output),
        output.truncated_before <= offset,
    ensures
        ({
            let all = flat(output.segments);
            let shown = flat(visible_segments(output.segments, offset));
            let dropped = all.len() - shown.len();
            &&& 0 <= dropped
            &&& shown == all.skip(dropped)
            &&& dropped > 0 ==> output.truncated_before + byte_length(all.take(dropped - 1)) < offset
            &&& offset <= output.next_offset ==> output.truncated_before + byte_length(
                all.take(dropped),
            ) >= offset
        }),
{
    let all = flat(output.segments);
    lemma_contiguous_length(output.segments, output.truncated_before, output.next_offset);
    lemma_visible_text(
        output.segments,
        output.truncated_before,
        output.next_offset,
        offset,
    );
    lemma_chars_covering(all, offset - output.truncated_before);
}

/// Something that was written.
pub struct Written {
    pub stream: OutputStream,
    pub text: Seq<char>,
}

/// All that was written, one text after the other.
pub open spec fn written_text(writes: Seq<Written>) -> Seq<char>
    decreases writes.len(),
{
    if writes.len() == 0 {
        Seq::empty()
    } else {
        written_text(writes.drop_last()) + writes.last().text
    }
}

/// The output after a series of writes.
pub open spec fn output_after(limit: nat, writes: Seq<Written>) -> Output
    decreases writes.len(),
{
    if writes.len() == 0 {
        Output { limit, next_offset: 0, truncated_before: 0, segments: Seq::empty() }
    } else {
        appended(
            output_after(limit, writes.drop_last()),
            writes.last().stream,
            writes.last().text,
        )
    }
}

/// A segment is the end of one of the writes from one of its characters on: it has that write's
/// stream, and its offset is the number of bytes written before that character.
pub open spec fn is_end_of_write(
    segment: Segment,
    writes: Seq<Written>,
    index: int,
    from: int,
) -> bool {
    &&& 0 <= index < writes.len()
    &&& 0 <= from < writes[index].text.len()
    &&& segment.stream == writes[index].stream
    &&& segment.text == writes[index].text.skip(from)
    &&& segment.offset == byte_length(written_text(writes.take(index))) + byte_length(
        writes[index].text.take(from),
    )
}

/// A segment is the end of one of the writes.
pub open spec fn comes_from(segment: Segment, writes: Seq<Written>) -> bool {
    exists|index: int, from: int| is_end_of_write(segment, writes, index, from)
}

/// The next segment starts right where this one ends, and further on.
pub open spec fn is_followed_up(segments: Seq<Segment>, index: int) -> bool {
    &&& segments[index].offset + byte_length(segments[index].text) == segments[index + 1].offset
    &&& segments[index].offset < segments[index + 1].offset
}

/// Where a read from an offset starts.
pub open spec fn read_start(output: Output, offset: int) -> int {
    if offset >= output.truncated_before {
        offset
    } else {
        output.truncated_before
    }
}

proof fn lemma_comes_from_later(segment: Segment, writes: Seq<Written>, next: Written)
    requires
        comes_from(segment, writes),
    ensures
        comes_from(segment, writes.push(next)),
{
    let (index, from) = choose|index: int, from: int|
        is_end_of_write(segment, writes, index, from);
    let more = writes.push(next);
    assert(more.take(index) =~= writes.take(index));
    assert(is_end_of_write(segment, more, index, from));
}

proof fn lemma_part_comes_from(segment: Segment, writes: Seq<Written>, count: int)
    requires
        comes_from(segment, writes),
        segment_without(segment, count).text.len() > 0,
    ensures
        comes_from(segment_without(segment, count), writes),
{
    let (index, from) = choose|index: int, from: int|
        is_end_of_write(segment, writes, index, from);
    let text = writes[index].text;
    let dropped = chars_covering(segment.text, count) as int;
    lemma_chars_covering(segment.text, count);
    assert(text.skip(from).skip(dropped) =~= text.skip(from + dropped));
    assert(text.take(from + dropped) =~= text.take(from) + text.skip(from).take(dropped));
    lemma_byte_length_concat(text.take(from), text.skip(from).take(dropped));
    assert(is_end_of_write(segment_without(segment, count), writes, index, from + dropped));
}

proof fn lemma_kept_come_from(segments: Seq<Segment>, writes: Seq<Written>, count: int)
    requires
        forall|i: int| 0 <= i < segments.len() ==> comes_from(#[trigger] segments[i], writes),
    ensures
        forall|i: int|
            0 <= i < without_bytes(segments, count).len() ==> comes_from(
                #[trigger] without_bytes(segments, count)[i],
                writes,
            ),
    decreases segments.len(),
{
    if count > 0 && segments.len() > 0 {
        let front = segment_without(segments.first(), count);
        if front.text.len() == 0 {
            let rest = segments.drop_first();
            assert forall|i: int| 0 <= i < rest.len() implies comes_from(
                #[trigger] rest[i],
                writes,
            ) by {
                assert(rest[i] == segments[i + 1]);
            }
            let less = count - byte_length(segments.first().text);
            lemma_kept_come_from(rest, writes, less);
            assert(without_bytes(segments, count) == without_bytes(rest, less));
        } else {
            assert(segments.first() == segments[0]);
            lemma_part_comes_from(segments[0], writes, count);
            let kept = segments.update(0, front);
            assert(without_bytes(segments, count) == kept);
            assert forall|i: int| 0 <= i < kept.len() implies comes_from(
                #[trigger] kept[i],
                writes,
            ) by {
                if i > 0 {
                    assert(kept[i] == segments[i]);
                }
            }
        }
    }
}

proof fn lemma_visible_come_from(segments: Seq<Segment>, writes: Seq<Written>, offset: int)
    requires
        forall|i: int| 0 <= i < segments.len() ==> comes_from(#[trigger] segments[i], writes),
    ensures
        forall|i: int|
            0 <= i < visible_segments(segments, offset).len() ==> comes_from(
                #[trigger] visible_segments(segments, offset)[i],
                writes,
            ),
    decreases segments.len(),
{
    if segments.len() > 0 {
        let init = segments.drop_last();
        let last = segments.last();
        assert forall|i: int| 0 <= i < init.len() implies comes_from(#[trigger] init[i], writes) by {
            assert(init[i] == segments[i]);
        }
        lemma_visible_come_from(init, writes, offset);
        assert(last == segments[segments.len() - 1]);
        let earlier = visible_segments(init, offset);
        let shown = visible_segments(segments, offset);
        if visible_part(last, offset).text.len() > 0 {
            lemma_part_comes_from(last, writes, offset - last.offset);
        }
        assert forall|i: int| 0 <= i < shown.len() implies comes_from(
            #[trigger] shown[i],
            writes,
        ) by {
            if i < earlier.len() {
                assert(shown[i] == earlier[i]);
            }
        }
    }
}

proof fn lemma_visible_contiguous(segments: Seq<Segment>, start: int, end: int, offset: int)
    requires
        is_contiguous(segments, start, end),
    ensures
        is_contiguous(
            visible_segments(segments, offset),
            end - byte_length(flat(visible_segments(segments, offset))),
            end,
        ),
        visible_segments(segments, offset).len() > 0 ==> offset < end,
    decreases segments.len(),
{
    let shown = visible_segments(segments, offset);
    if segments.len() == 0 {
        assert(shown =~= Seq::empty());
    } else {
        let init = segments.drop_last();
        let last = segments.last();
        let middle = end - byte_length(last.text);
        let earlier = visible_segments(init, offset);
        let part = visible_part(last, offset);
        lemma_contiguous_init(segments, start, end);
        lemma_visible_contiguous(init, start, middle, offset);
        lemma_chars_covering(last.text, offset - last.offset);
        let k = chars_covering(last.text, offset - last.offset) as int;
        assert(last.text =~= last.text.take(k) + last.text.skip(k));
        lemma_byte_length_concat(last.text.take(k), last.text.skip(k));
        if part.text.len() == 0 {
            assert(k == last.text.len());
            if k > 0 {
                lemma_byte_length_at_least(last.text);
                assert(earlier.len() == 0);
            } else {
                lemma_segment_bounds(segments, start, end, segments.len() - 1);
            }
        } else {
            lemma_flat_push(earlier, part);
            lemma_byte_length_concat(flat(earlier), part.text);
            if earlier.len() > 0 {
                assert(k == 0);
                assert(part.text =~= last.text);
                assert(last.text.take(0) =~= Seq::empty());
                lemma_contiguous_push(earlier, middle - byte_length(flat(earlier)), middle, part);
            } else {
                assert(flat(earlier) =~= Seq::empty());
                assert(is_contiguous(earlier, part.offset, part.offset));
                lemma_contiguous_push(earlier, part.offset, part.offset, part);
            }
            if k == last.text.len() {
                assert(part.text.len() == 0);
            }
        }
    }
}

/// The end of a text that is kept, after more was written and more was dropped.
proof fn lemma_end_of_longer_text(
    earlier: Seq<char>,
    text: Seq<char>,
    limit: nat,
    gone: int,
    more: int,
)
    requires
        0 <= gone <= earlier.len(),
        0 <= more <= earlier.len() - gone + text.len(),
        gone > 0 ==> byte_length(earlier.skip(gone - 1)) > limit,
        more > 0 ==> byte_length((earlier.skip(gone) + text).skip(more - 1)) > limit,
    ensures
        (earlier.skip(gone) + text).skip(more) == (earlier + text).skip(gone + more),
        gone + more > 0 ==> byte_length((earlier + text).skip(gone + more - 1)) > limit,
        byte_length((earlier + text).take(gone + more)) + byte_length(
            (earlier + text).skip(gone + more),
        ) == byte_length(earlier + text),
{
    let all = earlier + text;
    let joined = earlier.skip(gone) + text;
    let dropped = gone + more;
    assert(joined.skip(more) =~= all.skip(dropped));
    assert(all =~= all.take(dropped) + all.skip(dropped));
    lemma_byte_length_concat(all.take(dropped), all.skip(dropped));
    if more > 0 {
        assert(joined.skip(more - 1) =~= all.skip(dropped - 1));
    } else if gone > 0 {
        assert(all.skip(gone - 1) =~= earlier.skip(gone - 1) + text);
        lemma_byte_length_concat(earlier.skip(gone - 1), text);
    }
}

/// `output` holds the longest end of a text that is within the limit.
spec fn holds_end_of(output: Output, limit: nat, all: Seq<char>, dropped: int) -> bool {
    &&& output.limit == limit
    &&& output_wf(output)
    &&& output.next_offset == byte_length(all)
    &&& 0 <= dropped <= all.len()
    &&& flat(output.segments) == all.skip(dropped)
    &&& output.truncated_before == byte_length(all.take(dropped))
    &&& dropped > 0 ==> byte_length(all.skip(dropped - 1)) > limit
}

proof fn lemma_one_more_write(
    before: Output,
    limit: nat,
    earlier: Seq<char>,
    gone: int,
    stream: OutputStream,
    text: Seq<char>,
) -> (dropped: int)
    requires
        holds_end_of(before, limit, earlier, gone),
        byte_length(earlier + text) <= u64::MAX,
    ensures
        holds_end_of(appended(before, stream, text), limit, earlier + text, dropped),
{
    let after = appended(before, stream, text);
    lemma_byte_length_concat(earlier, text);
    law_output_keeps_the_latest_text(before, stream, text);
    law_offsets_stay_valid(before, stream, text, 0);
    let more = (earlier.skip(gone) + text).len() - flat(after.segments).len();
    lemma_end_of_longer_text(earlier, text, limit, gone, more);
    lemma_contiguous_length(after.segments, after.truncated_before, after.next_offset);
    gone + more
}

proof fn lemma_output_after(limit: nat, writes: Seq<Written>) -> (dropped: int)
    requires
        byte_length(written_text(writes)) <= u64::MAX,
    ensures
        holds_end_of(output_after(limit, writes), limit, written_text(writes), dropped),
    decreases writes.len(),
{
    if writes.len() == 0 {
        let all = written_text(writes);
        assert(all.skip(0) =~= Seq::empty());
        assert(all.take(0) =~= Seq::empty());
        0
    } else {
        let init = writes.drop_last();
        let last = writes.last();
        lemma_byte_length_concat(written_text(init), last.text);
        let gone = lemma_output_after(limit, init);
        lemma_one_more_write(
            output_after(limit, init),
            limit,
            written_text(init),
            gone,
            last.stream,
            last.text,
        )
    }
}

proof fn lemma_output_comes_from(limit: nat, writes: Seq<Written>)
    requires
        byte_length(written_text(writes)) <= u64::MAX,
    ensures
        forall|i: int|
            0 <= i < output_after(limit, writes).segments.len() ==> comes_from(
                #[trigger] output_after(limit, writes).segments[i],
                writes,
            ),
    decreases writes.len(),
{
    if writes.len() > 0 {
        let init = writes.drop_last();
        let last = writes.last();
        let before = output_after(limit, init);
        let after = appended(before, last.stream, last.text);
        lemma_byte_length_concat(written_text(init), last.text);
        let _ = lemma_output_after(limit, init);
        lemma_output_comes_from(limit, init);
        assert(writes =~= init.push(last));
        assert forall|i: int| 0 <= i < before.segments.len() implies comes_from(
            #[trigger] before.segments[i],
            writes,
        ) by {
            lemma_comes_from_later(before.segments[i], init, last);
        }
        if last.text.len() > 0 {
            let segment = Segment {
                offset: before.next_offset,
                stream: last.stream,
                text: last.text,
            };
            let index = writes.len() - 1;
            assert(writes.take(index) =~= init);
            assert(last.text.skip(0) =~= last.text);
            assert(last.text.take(0) =~= Seq::empty());
            assert(is_end_of_write(segment, writes, index, 0));
            let segments = before.segments.push(segment);
            assert forall|i: int| 0 <= i < segments.len() implies comes_from(
                #[trigger] segments[i],
                writes,
            ) by {
                if i < before.segments.len() {
                    assert(segments[i] == before.segments[i]);
                }
            }
            lemma_kept_come_from(
                segments,
                writes,
                after.next_offset - before.truncated_before - before.limit,
            );
        }
    }
}

/// Whatever was written, the output keeps the longest end of all of it that is within the limit and
/// starts with a whole character.
pub proof fn law_output_keeps_the_end_of_all_writes(limit: nat, writes: Seq<Written>)
    requires
        byte_length(written_text(writes)) <= u64::MAX,
    ensures
        ({
            let output = output_after(limit, writes);
            let all = written_text(writes);
            let kept = flat(output.segments);
            let dropped = all.len() - kept.len();
            &&& 0 <= dropped
            &&& kept == all.skip(dropped)
            &&& byte_length(kept) <= limit
            &&& dropped > 0 ==> byte_length(all.skip(dropped - 1)) > limit
            &&& output.truncated_before == byte_length(all.take(dropped))
            &&& output.next_offset == byte_length(all)
        }),
{
    let _ = lemma_output_after(limit, writes);
    let output = output_after(limit, writes);
    lemma_contiguous_length(output.segments, output.truncated_before, output.next_offset);
}

/// A read gives back what was written: after any series of writes, the texts of its items are all
/// that was written from where the read starts, up to the next whole character, without gap or
/// overlap. Each item is not empty, and has the stream and the byte offset of what was written.
pub proof fn law_reads_give_back_what_was_written(limit: nat, writes: Seq<Written>, offset: int)
    requires
        byte_length(written_text(writes)) <= u64::MAX,
        0 <= offset,
    ensures
        ({
            let output = output_after(limit, writes);
            let all = written_text(writes);
            let start = read_start(output, offset);
            let shown = visible_segments(output.segments, start);
            let skipped = all.len() - flat(shown).len();
            &&& output_items(output, offset) == segments_json(shown)
            &&& 0 <= skipped
            &&& flat(shown) == all.skip(skipped)
            &&& start <= output.next_offset ==> byte_length(all.take(skipped)) >= start
            &&& skipped > 0 ==> byte_length(all.take(skipped - 1)) < start
            &&& offset >= output.next_offset ==> shown.len() == 0
            &&& shown.len() > 0 ==> shown[0].offset == byte_length(all.take(skipped))
            &&& forall|i: int|
                0 <= i < shown.len() ==> (#[trigger] shown[i]).text.len() > 0 && comes_from(
                    shown[i],
                    writes,
                )
            &&& forall|i: int| 0 <= i < shown.len() - 1 ==> #[trigger] is_followed_up(shown, i)
        }),
{
    let output = output_after(limit, writes);
    let all = written_text(writes);
    let start = read_start(output, offset);
    let shown = visible_segments(output.segments, start);
    let kept = flat(output.segments);
    let dropped = lemma_output_after(limit, writes);
    lemma_contiguous_length(output.segments, output.truncated_before, output.next_offset);
    lemma_visible_text(output.segments, output.truncated_before, output.next_offset, start);
    let want = start - output.truncated_before;
    let k = chars_covering(kept, want) as int;
    lemma_chars_covering(kept, want);
    let skipped = dropped + k;
    assert(all.skip(dropped).skip(k) =~= all.skip(skipped));
    assert(all.take(skipped) =~= all.take(dropped) + kept.take(k));
    lemma_byte_length_concat(all.take(dropped), kept.take(k));
    if k > 0 {
        assert(all.take(skipped - 1) =~= all.take(dropped) + kept.take(k - 1));
        lemma_byte_length_concat(all.take(dropped), kept.take(k - 1));
    } else if dropped > 0 {
        assert(all.take(dropped) =~= all.take(dropped - 1) + all.subrange(dropped - 1, dropped));
        lemma_byte_length_concat(all.take(dropped - 1), all.subrange(dropped - 1, dropped));
        lemma_byte_length_at_least(all.subrange(dropped - 1, dropped));
    }
    lemma_output_comes_from(limit, writes);
    lemma_visible_come_from(output.segments, writes, start);
    lemma_visible_contiguous(
        output.segments,
        output.truncated_before,
        output.next_offset,
        start,
    );
    assert(all =~= all.take(skipped) + all.skip(skipped));
    lemma_byte_length_concat(all.take(skipped), all.skip(skipped));
    lemma_contiguous_steps(
        shown,
        output.next_offset - byte_length(flat(shown)),
        output.next_offset,
    );
}

proof fn lemma_contiguous_steps(segments: Seq<Segment>, start: int, end: int)
    requires
        is_contiguous(segments, start, end),
    ensures
        segments.len() > 0 ==> segments[0].offset == start,
        forall|i: int| 0 <= i < segments.len() ==> (#[trigger] segments[i]).text.len() > 0,
        forall|i: int| 0 <= i < segments.len() - 1 ==> #[trigger] is_followed_up(segments, i),
    decreases segments.len(),
{
    if segments.len() > 0 {
        let rest = segments.drop_first();
        lemma_contiguous_steps(rest, start + byte_length(segments.first().text), end);
        lemma_byte_length_at_least(segments[0].text);
        assert forall|i: int| 0 <= i < segments.len() implies (
        #[trigger] segments[i]).text.len() > 0 by {
            if i > 0 {
                assert(segments[i] == rest[i - 1]);
            }
        }
        assert forall|i: int| 0 <= i < segments.len() - 1 implies #[trigger] is_followed_up(
            segments,
            i,
        ) by {
            if i > 0 {
                assert(is_followed_up(rest, i - 1));
                assert(segments[i] == rest[i - 1] && segments[i + 1] == rest[i]);
            } else {
                assert(segments[1] == rest[0]);
            }
        }
    }
}

} // verus!
