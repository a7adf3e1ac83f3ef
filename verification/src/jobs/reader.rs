//! Turning the bytes that a process writes into text, piece by piece.

use crate::text::{readable_text, text_from_bytes, texts};
use vstd::prelude::*;
use vstd::utf8::{
    decode_utf8, decode_utf8_encode_utf8, decode_utf8_split, encode_utf8,
    is_char_boundary_iff_not_is_continuation_byte, is_continuation_byte, pop_first_scalar,
    valid_utf8, valid_utf8_concat, valid_utf8_split,
};

verus! {

/// Why bytes are not UTF-8.
pub struct Utf8Failure {
    /// How many bytes at the front are UTF-8.
    pub valid_up_to: usize,
    /// Whether the bytes end in the middle of a character.
    pub breaks_off: bool,
}

/// `length` is the length of the longest front part that is UTF-8.
pub open spec fn is_valid_length(bytes: Seq<u8>, length: int) -> bool {
    &&& 0 <= length <= bytes.len()
    &&& valid_utf8(bytes.take(length))
    &&& forall|longer: int|
        length < longer <= bytes.len() ==> !valid_utf8(#[trigger] bytes.take(longer))
}

/// The length of the longest front part that is UTF-8.
pub open spec fn valid_length(bytes: Seq<u8>) -> int {
    choose|length: int| is_valid_length(bytes, length)
}

/// Whether bytes are the front of something that is UTF-8: they are, or become so when more bytes
/// come.
pub open spec fn is_front_of_text(bytes: Seq<u8>) -> bool {
    exists|more: Seq<u8>| valid_utf8(#[trigger] (bytes + more))
}

/// Wraps `std::str::from_utf8`: the text of bytes that are UTF-8, and otherwise how far they are.
/// `Utf8Error::error_len` is absent where the bytes end inside a character, so that more bytes could
/// complete them, and then at most three bytes are left.
#[verifier::external_body]
fn checked_text(bytes: &[u8]) -> (checked: Result<String, Utf8Failure>)
    ensures
        match checked {
            Ok(text) => valid_utf8(bytes@) && text@ == decode_utf8(bytes@),
            Err(failure) => !valid_utf8(bytes@) && is_valid_length(
                bytes@,
                failure.valid_up_to as int,
            ) && failure.breaks_off == is_front_of_text(bytes@) && (failure.breaks_off
                ==> bytes@.len() - failure.valid_up_to <= 3),
        },
{
    match std::str::from_utf8(bytes) {
        Ok(text) => Ok(text.to_owned()),
        Err(error) => Err(
            Utf8Failure {
                valid_up_to: error.valid_up_to(),
                breaks_off: error.error_len().is_none(),
            },
        ),
    }
}

/// `index` is that of the first line feed.
pub open spec fn is_first_line_feed(bytes: Seq<u8>, index: int) -> bool {
    &&& 0 <= index < bytes.len()
    &&& bytes[index] == 10
    &&& forall|earlier: int| 0 <= earlier < index ==> #[trigger] bytes[earlier] != 10
}

/// There is a line feed.
pub open spec fn has_line_feed(bytes: Seq<u8>) -> bool {
    exists|index: int| is_first_line_feed(bytes, index)
}

/// The index of the first line feed.
pub open spec fn first_line_feed(bytes: Seq<u8>) -> int {
    choose|index: int| is_first_line_feed(bytes, index)
}

/// The texts that pending bytes give, and the bytes that stay pending. Lines go out as a whole, then
/// what is left as far as it is UTF-8. Only the front of a character waits for more.
pub open spec fn flushed(pending: Seq<u8>) -> (Seq<Seq<char>>, Seq<u8>)
    decreases pending.len(),
{
    let cut = if has_line_feed(pending) {
        first_line_feed(pending) + 1
    } else {
        valid_length(pending)
    };
    if has_line_feed(pending) && 0 < cut <= pending.len() {
        let (rest, left) = flushed(pending.skip(cut));
        (seq![readable_text(pending.take(cut))] + rest, left)
    } else if pending.len() == 0 {
        (Seq::empty(), pending)
    } else if valid_utf8(pending) {
        (seq![decode_utf8(pending)], Seq::empty())
    } else if 0 < cut < pending.len() {
        let (rest, left) = flushed(pending.skip(cut));
        (seq![decode_utf8(pending.take(cut))] + rest, left)
    } else if is_front_of_text(pending) {
        (Seq::empty(), pending)
    } else {
        (seq![readable_text(pending)], Seq::empty())
    }
}

/// The texts of a list, one after the other.
pub open spec fn concatenated(list: Seq<Seq<char>>) -> Seq<char>
    decreases list.len(),
{
    if list.len() == 0 {
        Seq::empty()
    } else {
        concatenated(list.drop_last()) + list.last()
    }
}

proof fn lemma_line_feed_split(bytes: Seq<u8>, index: int)
    requires
        valid_utf8(bytes),
        0 <= index < bytes.len(),
        bytes[index] == 10,
    ensures
        valid_utf8(bytes.take(index + 1)),
        valid_utf8(bytes.skip(index + 1)),
        decode_utf8(bytes) == decode_utf8(bytes.take(index + 1)) + decode_utf8(
            bytes.skip(index + 1),
        ),
{
    let byte = bytes[index];
    assert(!is_continuation_byte(byte)) by {
        assert(byte == 10u8 ==> !(0x80u8 <= byte && byte <= 0xbfu8)) by (bit_vector);
    }
    is_char_boundary_iff_not_is_continuation_byte(bytes, index);
    valid_utf8_split(bytes, index);
    decode_utf8_split(bytes, index);
    let tail = bytes.subrange(index, bytes.len() as int);
    let head = bytes.subrange(0, index);
    assert(tail.len() > 0 && tail[0] == 10);
    assert(pop_first_scalar(tail) =~= bytes.skip(index + 1));
    let feed = seq![10u8];
    assert(feed.subrange(1, 1) =~= Seq::empty());
    assert(valid_utf8(Seq::<u8>::empty()));
    assert(valid_utf8(feed)) by {
        assert(pop_first_scalar(feed) =~= Seq::empty());
    }
    valid_utf8_concat(head, feed);
    let front = bytes.take(index + 1);
    assert(front =~= head + feed);
    is_char_boundary_iff_not_is_continuation_byte(front, index);
    decode_utf8_split(front, index);
    assert(front.subrange(0, index) =~= head);
    assert(front.subrange(index, front.len() as int) =~= feed);
    assert(decode_utf8(Seq::<u8>::empty()) =~= Seq::empty());
    assert(decode_utf8(feed) =~= seq![vstd::utf8::decode_first_scalar(feed) as char]);
    assert(decode_utf8(tail) =~= decode_utf8(feed) + decode_utf8(bytes.skip(index + 1)));
    assert(decode_utf8(bytes) =~= decode_utf8(front) + decode_utf8(bytes.skip(index + 1)));
}

proof fn lemma_valid_rest(front: Seq<u8>, rest: Seq<u8>)
    requires
        valid_utf8(front),
        valid_utf8(front + rest),
    ensures
        valid_utf8(rest),
    decreases front.len(),
{
    if front.len() == 0 {
        assert(front + rest =~= rest);
    } else {
        let shorter = pop_first_scalar(front);
        assert(pop_first_scalar(front + rest) =~= shorter + rest);
        lemma_valid_rest(shorter, rest);
    }
}

proof fn lemma_encode_concat(first: Seq<char>, second: Seq<char>)
    ensures
        encode_utf8(first + second) == encode_utf8(first) + encode_utf8(second),
    decreases first.len(),
{
    if first.len() == 0 {
        assert(first + second =~= second);
        assert(encode_utf8(first) + encode_utf8(second) =~= encode_utf8(second));
    } else {
        assert((first + second).drop_first() =~= first.drop_first() + second);
        lemma_encode_concat(first.drop_first(), second);
        assert(encode_utf8(first + second) =~= encode_utf8(first) + encode_utf8(second));
    }
}

/// The front of a text can be cut where a line ends, or where its front is complete.
proof fn lemma_front_split(bytes: Seq<u8>, cut: int)
    requires
        is_front_of_text(bytes),
        0 < cut <= bytes.len(),
        bytes[cut - 1] == 10 || valid_utf8(bytes.take(cut)),
    ensures
        valid_utf8(bytes.take(cut)),
        is_front_of_text(bytes.skip(cut)),
{
    let more = choose|more: Seq<u8>| valid_utf8(#[trigger] (bytes + more));
    let whole = bytes + more;
    assert(whole.take(cut) =~= bytes.take(cut));
    assert(whole.skip(cut) =~= bytes.skip(cut) + more);
    if bytes[cut - 1] == 10 {
        lemma_line_feed_split(whole, cut - 1);
    } else {
        assert(whole =~= bytes.take(cut) + (bytes.skip(cut) + more));
        lemma_valid_rest(bytes.take(cut), bytes.skip(cut) + more);
    }
}

fn line_feed_index(bytes: &Vec<u8>) -> (found: Option<usize>)
    ensures
        match found {
            Some(index) => is_first_line_feed(bytes@, index as int) && has_line_feed(bytes@)
                && first_line_feed(bytes@) == index,
            None => !has_line_feed(bytes@),
        },
{
    let mut i: usize = 0;
    while i < bytes.len()
        invariant
            i <= bytes@.len(),
            forall|earlier: int| 0 <= earlier < i ==> #[trigger] bytes@[earlier] != 10,
        decreases bytes@.len() - i,
    {
        if bytes[i] == 10 {
            proof {
                assert(is_first_line_feed(bytes@, i as int));
                let first = first_line_feed(bytes@);
                assert(is_first_line_feed(bytes@, first));
                if first < i {
                    assert(bytes@[first] != 10);
                } else if first > i {
                    assert(bytes@[i as int] != 10);
                }
            }
            return Some(i);
        }
        i += 1;
    }
    None
}

proof fn lemma_valid_length(bytes: Seq<u8>, length: int)
    requires
        is_valid_length(bytes, length),
    ensures
        valid_length(bytes) == length,
{
    let chosen = valid_length(bytes);
    assert(is_valid_length(bytes, chosen));
    if chosen < length {
        assert(!valid_utf8(bytes.take(length)));
    } else if chosen > length {
        assert(!valid_utf8(bytes.take(chosen)));
    }
}

fn cut_front(pending: &mut Vec<u8>, count: usize) -> (front: Vec<u8>)
    requires
        count <= old(pending)@.len(),
    ensures
        front@ == old(pending)@.take(count as int),
        final(pending)@ == old(pending)@.skip(count as int),
{
    let ghost before = pending@;
    let mut front = pending.split_off(count);
    std::mem::swap(&mut front, pending);
    assert(front@ =~= before.take(count as int));
    assert(pending@ =~= before.skip(count as int));
    front
}

/// Takes the texts out of pending bytes. Of bytes that are the front of a text none is lost or
/// changed: the texts hold them, as far as they do not stay pending. Bytes that are UTF-8 come out
/// whole, with nothing left.
pub fn flush_output_chunks(pending: &mut Vec<u8>) -> (chunks: Vec<String>)
    ensures
        (texts(chunks@), final(pending)@) == flushed(old(pending)@),
        valid_utf8(old(pending)@) ==> concatenated(texts(chunks@)) == decode_utf8(old(pending)@)
            && final(pending)@.len() == 0,
        is_front_of_text(old(pending)@) ==> encode_utf8(concatenated(texts(chunks@)))
            + final(pending)@ == old(pending)@,
{
    let ghost whole = pending@;
    let mut chunks: Vec<String> = Vec::new();
    proof {
        assert(texts(chunks@) =~= Seq::empty());
        assert(texts(chunks@) + flushed(whole).0 =~= flushed(whole).0);
        assert(concatenated(texts(chunks@)) + decode_utf8(whole) =~= decode_utf8(whole));
        assert(encode_utf8(concatenated(texts(chunks@))) + whole =~= whole);
    }
    loop
        invariant
            whole == old(pending)@,
            flushed(whole) == (texts(chunks@) + flushed(pending@).0, flushed(pending@).1),
            valid_utf8(whole) ==> valid_utf8(pending@) && decode_utf8(whole) == concatenated(
                texts(chunks@),
            ) + decode_utf8(pending@),
            is_front_of_text(whole) ==> is_front_of_text(pending@) && encode_utf8(
                concatenated(texts(chunks@)),
            ) + pending@ == whole,
        decreases pending@.len(),
    {
        let ghost current = pending@;
        let ghost listed = texts(chunks@);
        let ghost mut text: Seq<char> = Seq::empty();
        if let Some(index) = line_feed_index(pending) {
            assert(index < pending.len());
            let line = cut_front(pending, index + 1);
            let chunk = text_from_bytes(line.as_slice());
            proof {
                text = chunk@;
                if valid_utf8(whole) {
                    lemma_line_feed_split(current, index as int);
                }
                if is_front_of_text(whole) {
                    lemma_front_split(current, index + 1);
                }
            }
            chunks.push(chunk);
        } else if pending.len() == 0 {
            proof {
                assert(flushed(current).0 =~= Seq::empty());
                assert(listed + flushed(current).0 =~= listed);
                assert(decode_utf8(current) =~= Seq::empty());
                assert(concatenated(listed) + decode_utf8(current) =~= concatenated(listed));
            }
            return chunks;
        } else {
            match checked_text(pending.as_slice()) {
                Ok(chunk) => {
                    proof {
                        text = chunk@;
                        assert(flushed(Seq::empty()).0 =~= Seq::empty());
                        assert(decode_utf8(Seq::<u8>::empty()) =~= Seq::empty());
                        assert(Seq::<u8>::empty() + Seq::<u8>::empty() =~= Seq::empty());
                        assert(is_front_of_text(Seq::empty()));
                        assert(current.take(current.len() as int) =~= current);
                    }
                    chunks.push(chunk);
                    pending.clear();
                    assert(pending@ =~= Seq::empty());
                },
                Err(failure) => {
                    proof {
                        lemma_valid_length(current, failure.valid_up_to as int);
                        assert(current.take(current.len() as int) =~= current);
                    }
                    if failure.valid_up_to > 0 {
                        proof {
                            if is_front_of_text(whole) {
                                lemma_front_split(current, failure.valid_up_to as int);
                            }
                        }
                        let front = cut_front(pending, failure.valid_up_to);
                        match checked_text(front.as_slice()) {
                            Ok(chunk) => {
                                proof {
                                    text = chunk@;
                                }
                                chunks.push(chunk);
                            },
                            Err(_) => {
                                assert(false);
                            },
                        }
                    } else if failure.breaks_off {
                        assert(listed + flushed(current).0 =~= listed);
                        return chunks;
                    } else {
                        let chunk = text_from_bytes(pending.as_slice());
                        proof {
                            text = chunk@;
                            assert(flushed(Seq::empty()).0 =~= Seq::empty());
                        }
                        chunks.push(chunk);
                        pending.clear();
                        assert(pending@ =~= Seq::empty());
                    }
                },
            }
        }
        proof {
            assert(texts(chunks@) =~= listed.push(text));
            assert(flushed(current).0 =~= seq![text] + flushed(pending@).0);
            assert(listed + flushed(current).0 =~= texts(chunks@) + flushed(pending@).0);
            assert(texts(chunks@).drop_last() =~= listed);
            if is_front_of_text(whole) {
                let cut = current.len() - pending@.len();
                assert(pending@ =~= current.skip(cut));
                assert(text == decode_utf8(current.take(cut)));
                decode_utf8_encode_utf8(current.take(cut));
                lemma_encode_concat(concatenated(listed), text);
                assert(current =~= current.take(cut) + current.skip(cut));
                assert(encode_utf8(concatenated(texts(chunks@))) + pending@ =~= encode_utf8(
                    concatenated(listed),
                ) + current);
            }
            if valid_utf8(whole) {
                assert(decode_utf8(current) =~= text + decode_utf8(pending@));
                assert(concatenated(texts(chunks@)) + decode_utf8(pending@) =~= concatenated(listed)
                    + decode_utf8(current));
            }
        }
    }
}

/// The text of the bytes that are pending when nothing more comes.
pub fn remaining_output(pending: &Vec<u8>) -> (text: Option<String>)
    ensures
        match text {
            Some(chunk) => pending@.len() > 0 && chunk@ == readable_text(pending@),
            None => pending@.len() == 0,
        },
{
    if pending.len() == 0 {
        None
    } else {
        Some(text_from_bytes(pending.as_slice()))
    }
}

/// Output is handed on line by line: the first line that is complete comes first, with its line feed,
/// and what follows it is handed on as if it had come alone.
pub proof fn law_lines_are_handed_on_one_by_one(line: Seq<u8>, rest: Seq<u8>)
    requires
        line.len() > 0,
        line.last() == 10,
        forall|i: int| 0 <= i < line.len() - 1 ==> #[trigger] line[i] != 10,
    ensures
        flushed(line + rest) == (seq![readable_text(line)] + flushed(rest).0, flushed(rest).1),
{
    let all = line + rest;
    let end = line.len() - 1;
    assert(all[end] == line.last());
    assert forall|earlier: int| 0 <= earlier < end implies #[trigger] all[earlier] != 10 by {
        assert(all[earlier] == line[earlier]);
    }
    assert(is_first_line_feed(all, end));
    let found = first_line_feed(all);
    assert(is_first_line_feed(all, found));
    if found < end {
        assert(all[found] != 10);
    }
    if end < found {
        assert(all[end] != 10);
    }
    assert(all.take(end + 1) =~= line);
    assert(all.skip(end + 1) =~= rest);
}

/// Output without a line feed is handed on at once, as it is, when it is text; and nothing is handed
/// on, nor left, when there is no output.
pub proof fn law_text_is_handed_on_as_it_is(pending: Seq<u8>)
    requires
        valid_utf8(pending),
        forall|i: int| 0 <= i < pending.len() ==> #[trigger] pending[i] != 10,
    ensures
        flushed(pending).1.len() == 0,
        pending.len() == 0 ==> flushed(pending).0.len() == 0,
        pending.len() > 0 ==> flushed(pending).0 == seq![decode_utf8(pending)],
{
    if has_line_feed(pending) {
        let index = choose|index: int| is_first_line_feed(pending, index);
        assert(pending[index] != 10);
    }
}

} // verus!
