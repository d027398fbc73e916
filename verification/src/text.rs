//! Cursor movement and editing on a line of text, by extended grapheme cluster.
//!
//! A cursor is a byte offset into the UTF-8 encoding of the text. Contracts
//! speak of the encoding (`encode_utf8` of the text's characters) and of the
//! offsets at which grapheme clusters start.

use unicode_segmentation::UnicodeSegmentation;
use vstd::prelude::*;
use vstd::string::*;
use vstd::utf8::*;

verus! {

/// The byte offsets at which the grapheme clusters of `text` start, in the
/// order of the text: the extended clusters or the legacy ones. Unicode's
/// segmentation rules decide them; the library reasons only from
/// `cluster_starts`.
pub uninterp spec fn cluster_offsets(text: Seq<char>, extended: bool) -> Seq<usize>;

/// The byte offsets at which the extended grapheme clusters of `text` start.
pub open spec fn grapheme_offsets(text: Seq<char>) -> Seq<usize> {
    cluster_offsets(text, true)
}

/// Whether `c` has Unicode's `White_Space` property.
pub uninterp spec fn is_whitespace(c: char) -> bool;

/// What holds of the cluster starts of a text with the encoding `bytes`:
/// they rise strictly, each one is a character boundary inside the text,
/// and the first cluster of a text that is not empty starts at 0.
pub open spec fn cluster_starts(offsets: Seq<usize>, bytes: Seq<u8>) -> bool {
    &&& rising_boundaries(offsets, bytes)
    &&& bytes.len() > 0 ==> offsets.len() > 0 && offsets[0] == 0
}

/// The offsets rise strictly, and each one is a character boundary inside
/// the text with the encoding `bytes`.
pub open spec fn rising_boundaries(offsets: Seq<usize>, bytes: Seq<u8>) -> bool {
    &&& forall|i: int, j: int| 0 <= i < j < offsets.len() ==> offsets[i] < offsets[j]
    &&& forall|i: int|
        0 <= i < offsets.len() ==> offsets[i] < bytes.len() && is_char_boundary(
            bytes,
            #[trigger] offsets[i] as int,
        )
}

/// The last offset below `pos`, or 0 where there is none.
pub open spec fn prev_boundary(offsets: Seq<usize>, pos: int) -> int
    decreases offsets.len(),
{
    if offsets.len() == 0 {
        0
    } else if offsets.last() < pos {
        offsets.last() as int
    } else {
        prev_boundary(offsets.drop_last(), pos)
    }
}

/// The first offset above `pos`, or `len` where there is none.
pub open spec fn next_boundary(offsets: Seq<usize>, pos: int, len: int) -> int
    decreases offsets.len(),
{
    if offsets.len() == 0 {
        len
    } else if offsets.first() > pos {
        offsets.first() as int
    } else {
        next_boundary(offsets.drop_first(), pos, len)
    }
}

/// The length of the encoding of `text`, in bytes.
pub open spec fn byte_len(text: Seq<char>) -> int {
    encode_utf8(text).len() as int
}

/// `pos`, or the end of the text where `pos` lies beyond it.
pub open spec fn clamped(text: Seq<char>, pos: int) -> int {
    if pos < byte_len(text) {
        pos
    } else {
        byte_len(text)
    }
}

/// `bytes` without the bytes from `from` up to `to`.
pub open spec fn without_range(bytes: Seq<u8>, from: int, to: int) -> Seq<u8> {
    bytes.subrange(0, from) + bytes.subrange(to, bytes.len() as int)
}

/// `bytes` with the encoding of `c` put in at `at`.
pub open spec fn with_char(bytes: Seq<u8>, at: int, c: char) -> Seq<u8> {
    bytes.subrange(0, at) + encode_scalar(c as u32) + bytes.subrange(at, bytes.len() as int)
}

/// `text` without what its bytes from `from` up to `to` encode.
pub open spec fn text_without(text: Seq<char>, from: int, to: int) -> Seq<char> {
    decode_utf8(without_range(encode_utf8(text), from, to))
}

/// `text` with `c` put in at the byte offset `at`.
pub open spec fn text_with(text: Seq<char>, at: int, c: char) -> Seq<char> {
    decode_utf8(with_char(encode_utf8(text), at, c))
}

/// `text` up to the byte offset `to`.
pub open spec fn text_until(text: Seq<char>, to: int) -> Seq<char> {
    decode_utf8(encode_utf8(text).subrange(0, to))
}

/// The characters that the bytes of `text` from `from` up to `to` encode.
pub open spec fn span(text: Seq<char>, from: int, to: int) -> Seq<char> {
    decode_utf8(encode_utf8(text).subrange(from, to))
}

/// Every character of `chars` is white space (`spaces`), or none is.
pub open spec fn uniform(chars: Seq<char>, spaces: bool) -> bool {
    forall|i: int| 0 <= i < chars.len() ==> is_whitespace(#[trigger] chars[i]) == spaces
}

/// Where a walk towards the start of the text stops that begins at `pos` and
/// goes back one cluster at a time for as long as the cluster passed is
/// uniform: all white space (`spaces`) or free of it.
pub open spec fn skip_back(text: Seq<char>, pos: int, spaces: bool) -> int
    decreases pos,
{
    let prev = prev_boundary(grapheme_offsets(text), pos);
    if 0 <= prev < pos && uniform(span(text, prev, pos), spaces) {
        skip_back(text, prev, spaces)
    } else {
        pos
    }
}

/// Where a walk towards the end of the text stops that begins at `pos` and
/// goes on one cluster at a time for as long as the cluster passed is
/// uniform: all white space (`spaces`) or free of it.
pub open spec fn skip_forward(text: Seq<char>, pos: int, spaces: bool) -> int
    decreases byte_len(text) - pos,
{
    let next = next_boundary(grapheme_offsets(text), pos, byte_len(text));
    if pos < next <= byte_len(text) && uniform(span(text, pos, next), spaces) {
        skip_forward(text, next, spaces)
    } else {
        pos
    }
}

/// The start of the word before `pos`: back over white space, then back over
/// what is not.
pub open spec fn word_start(text: Seq<char>, pos: int) -> int {
    skip_back(text, skip_back(text, pos, true), false)
}

/// The start of the word after the one at `pos`: on over what is not white
/// space, then on over white space.
pub open spec fn next_word_start(text: Seq<char>, pos: int) -> int {
    skip_forward(text, skip_forward(text, pos, false), true)
}

/// `UnicodeSegmentation::grapheme_indices`, keeping of every cluster the
/// offset it starts at. The iterator hands out adjacent, non-empty slices of
/// the text from offset 0 on, which is what `cluster_starts` says.
#[verifier::external_body]
fn grapheme_starts(text: &str, extended: bool) -> (starts: Vec<usize>)
    ensures
        starts@ == cluster_offsets(text@, extended),
        cluster_starts(starts@, text.spec_bytes()),
{
    text.grapheme_indices(extended).map(|(i, _)| i).collect()
}

/// `char::is_whitespace` tells whether the character has the `White_Space`
/// property.
pub assume_specification[ char::is_whitespace ](c: char) -> (b: bool)
    ensures
        b == is_whitespace(c),
;

/// `String::drain` over the byte range `from..to`, which takes the bytes of
/// the range out of the string; the characters it hands out are dropped.
#[verifier::external_body]
fn drain_range(text: &mut String, from: usize, to: usize)
    requires
        from <= to,
        is_char_boundary(encode_utf8(old(text)@), from as int),
        is_char_boundary(encode_utf8(old(text)@), to as int),
    ensures
        encode_utf8(final(text)@) == without_range(
            encode_utf8(old(text)@),
            from as int,
            to as int,
        ),
{
    text.drain(from..to);
}

/// `String::truncate` cuts the string off at the byte offset `new_len`,
/// which has to be a character boundary; a string that is not longer stays
/// as it is.
pub assume_specification[ String::truncate ](text: &mut String, new_len: usize)
    requires
        new_len <= encode_utf8(old(text)@).len() ==> is_char_boundary(
            encode_utf8(old(text)@),
            new_len as int,
        ),
    ensures
        new_len <= encode_utf8(old(text)@).len() ==> encode_utf8(final(text)@) == encode_utf8(
            old(text)@,
        ).subrange(0, new_len as int),
        new_len > encode_utf8(old(text)@).len() ==> final(text)@ == old(text)@,
;

/// `String::insert` puts the encoding of `ch` in at the byte offset `idx`,
/// which has to be a character boundary. A string's length fits in `usize`.
pub assume_specification[ String::insert ](text: &mut String, idx: usize, ch: char)
    requires
        is_char_boundary(encode_utf8(old(text)@), idx as int),
    ensures
        encode_utf8(final(text)@) == with_char(encode_utf8(old(text)@), idx as int, ch),
        encode_utf8(final(text)@).len() <= usize::MAX,
;

/// `char::len_utf8` is the number of bytes of the character's encoding.
pub assume_specification[ char::len_utf8 ](c: char) -> (n: usize)
    ensures
        n == encode_scalar(c as u32).len(),
;

/// The length of `text` in bytes.
fn len_of(text: &str) -> (n: usize)
    ensures
        n == byte_len(text@),
{
    text.as_bytes().len()
}

/// The previous boundary is 0 or an offset below `pos`, hence a character
/// boundary, and no offset lies between it and `pos`.
pub proof fn lemma_prev_boundary(offsets: Seq<usize>, bytes: Seq<u8>, pos: int)
    requires
        valid_utf8(bytes),
        rising_boundaries(offsets, bytes),
    ensures
        0 <= prev_boundary(offsets, pos),
        pos > 0 ==> prev_boundary(offsets, pos) < pos,
        pos <= 0 ==> prev_boundary(offsets, pos) == 0,
        prev_boundary(offsets, pos) <= bytes.len(),
        is_char_boundary(bytes, prev_boundary(offsets, pos)),
        forall|i: int|
            0 <= i < offsets.len() && offsets[i] < pos ==> #[trigger] offsets[i]
                <= prev_boundary(offsets, pos),
        prev_boundary(offsets, pos) == 0 || exists|i: int|
            0 <= i < offsets.len() && #[trigger] offsets[i] == prev_boundary(offsets, pos),
    decreases offsets.len(),
{
    if offsets.len() == 0 {
    } else if offsets.last() < pos {
        assert(offsets[offsets.len() - 1] == prev_boundary(offsets, pos));
    } else {
        let shorter = offsets.drop_last();
        assert forall|i: int| 0 <= i < shorter.len() implies shorter[i] < bytes.len()
            && is_char_boundary(bytes, #[trigger] shorter[i] as int) by {
            assert(shorter[i] == offsets[i]);
        }
        lemma_prev_boundary(shorter, bytes, pos);
        assert forall|i: int| 0 <= i < offsets.len() && offsets[i] < pos implies #[trigger] offsets[i]
            <= prev_boundary(offsets, pos) by {
            assert(shorter[i] == offsets[i]);
        }
        if prev_boundary(offsets, pos) != 0 {
            let i = choose|i: int|
                0 <= i < shorter.len() && #[trigger] shorter[i] == prev_boundary(shorter, pos);
            assert(offsets[i] == prev_boundary(offsets, pos));
        }
    }
}

/// The next boundary is the end of the text or an offset above `pos`, hence a
/// character boundary, and no offset lies between `pos` and it.
pub proof fn lemma_next_boundary(offsets: Seq<usize>, bytes: Seq<u8>, pos: int)
    requires
        valid_utf8(bytes),
        rising_boundaries(offsets, bytes),
    ensures
        pos < bytes.len() ==> pos < next_boundary(offsets, pos, bytes.len() as int),
        pos >= bytes.len() ==> next_boundary(offsets, pos, bytes.len() as int) == bytes.len(),
        next_boundary(offsets, pos, bytes.len() as int) <= bytes.len(),
        is_char_boundary(bytes, next_boundary(offsets, pos, bytes.len() as int)),
        forall|i: int|
            0 <= i < offsets.len() && offsets[i] > pos ==> #[trigger] offsets[i] >= next_boundary(
                offsets,
                pos,
                bytes.len() as int,
            ),
        next_boundary(offsets, pos, bytes.len() as int) == bytes.len() || exists|i: int|
            0 <= i < offsets.len() && #[trigger] offsets[i] == next_boundary(
                offsets,
                pos,
                bytes.len() as int,
            ),
    decreases offsets.len(),
{
    let len = bytes.len() as int;
    is_char_boundary_start_end_of_seq(bytes);
    if offsets.len() == 0 {
    } else if offsets.first() > pos {
        assert(offsets[0] == next_boundary(offsets, pos, len));
    } else {
        let rest = offsets.drop_first();
        assert forall|i: int| 0 <= i < rest.len() implies rest[i] < bytes.len()
            && is_char_boundary(bytes, #[trigger] rest[i] as int) by {
            assert(rest[i] == offsets[i + 1]);
        }
        lemma_next_boundary(rest, bytes, pos);
        assert forall|i: int| 0 <= i < offsets.len() && offsets[i] > pos implies #[trigger] offsets[i]
            >= next_boundary(offsets, pos, len) by {
            assert(rest[i - 1] == offsets[i]);
        }
        if next_boundary(offsets, pos, len) != len {
            let i = choose|i: int|
                0 <= i < rest.len() && #[trigger] rest[i] == next_boundary(rest, pos, len);
            assert(offsets[i + 1] == next_boundary(offsets, pos, len));
        }
    }
}

/// From the start of a cluster, the previous boundary of the next boundary
/// is that start: a step to the right and a step to the left bring a
/// cursor back to where it stood.
pub proof fn lemma_left_undoes_right(offsets: Seq<usize>, bytes: Seq<u8>, at: int)
    requires
        valid_utf8(bytes),
        cluster_starts(offsets, bytes),
        0 <= at < offsets.len(),
    ensures
        prev_boundary(offsets, next_boundary(offsets, offsets[at] as int, bytes.len() as int))
            == offsets[at],
{
    let pos = offsets[at] as int;
    let next = next_boundary(offsets, pos, bytes.len() as int);
    lemma_next_boundary(offsets, bytes, pos);
    lemma_prev_boundary(offsets, bytes, next);
    let back = prev_boundary(offsets, next);
    assert(offsets[at] <= back);
    if back != pos {
        let i = choose|i: int| 0 <= i < offsets.len() && #[trigger] offsets[i] == back;
        assert(offsets[i] >= next);
    }
}

/// From the start of a cluster that is not the first, the next boundary of
/// the previous boundary is that start: a step to the left and a step to the
/// right bring a cursor back to where it stood.
pub proof fn lemma_right_undoes_left(offsets: Seq<usize>, bytes: Seq<u8>, at: int)
    requires
        valid_utf8(bytes),
        cluster_starts(offsets, bytes),
        0 < at < offsets.len(),
    ensures
        next_boundary(offsets, prev_boundary(offsets, offsets[at] as int), bytes.len() as int)
            == offsets[at],
{
    let pos = offsets[at] as int;
    let prev = prev_boundary(offsets, pos);
    assert(offsets[0] < offsets[at]);
    lemma_prev_boundary(offsets, bytes, pos);
    lemma_next_boundary(offsets, bytes, prev);
    let forth = next_boundary(offsets, prev, bytes.len() as int);
    assert(offsets[at] >= forth);
    if forth != pos {
        assert(forth < bytes.len());
        let i = choose|i: int| 0 <= i < offsets.len() && #[trigger] offsets[i] == forth;
        assert(offsets[i] <= prev);
    }
}

/// The last of `starts` below `pos`, or 0 where there is none.
pub fn boundary_before(starts: &Vec<usize>, pos: usize) -> (r: usize)
    ensures
        r == prev_boundary(starts@, pos as int),
{
    let mut at = starts.len();
    proof {
        assert(starts@.take(at as int) =~= starts@);
    }
    while at > 0
        invariant
            at <= starts@.len(),
            prev_boundary(starts@, pos as int) == prev_boundary(starts@.take(at as int), pos as int),
        decreases at,
    {
        proof {
            let upto = starts@.take(at as int);
            assert(upto.last() == starts@[at - 1]);
            assert(upto.drop_last() =~= starts@.take(at - 1));
        }
        if starts[at - 1] < pos {
            return starts[at - 1];
        }
        at -= 1;
    }
    0
}

/// The first of `starts` above `pos`, or `len` where there is none.
pub fn boundary_after(starts: &Vec<usize>, pos: usize, len: usize) -> (r: usize)
    ensures
        r == next_boundary(starts@, pos as int, len as int),
{
    let mut at: usize = 0;
    proof {
        assert(starts@.skip(0) =~= starts@);
    }
    while at < starts.len()
        invariant
            at <= starts@.len(),
            next_boundary(starts@, pos as int, len as int) == next_boundary(
                starts@.skip(at as int),
                pos as int,
                len as int,
            ),
        decreases starts@.len() - at,
    {
        proof {
            let from = starts@.skip(at as int);
            assert(from.first() == starts@[at as int]);
            assert(from.drop_first() =~= starts@.skip(at + 1));
        }
        if starts[at] > pos {
            return starts[at];
        }
        at += 1;
    }
    len
}

/// The start of the grapheme cluster that ends at or covers the byte before
/// `pos`: the last cluster start below `pos`, taken within the text, and 0 at
/// the start of the text.
pub fn prev_grapheme_boundary(text: &str, pos: usize) -> (r: usize)
    ensures
        r == prev_boundary(grapheme_offsets(text@), clamped(text@, pos as int)),
        r <= clamped(text@, pos as int),
        pos > 0 && byte_len(text@) > 0 ==> r < clamped(text@, pos as int),
        is_char_boundary(text.spec_bytes(), r as int),
        cluster_starts(grapheme_offsets(text@), text.spec_bytes()),
        forall|i: int|
            0 <= i < grapheme_offsets(text@).len() ==> !(r < (#[trigger] grapheme_offsets(
                text@,
            )[i]) < clamped(text@, pos as int)),
{
    let len = len_of(text);
    let pos = if pos < len { pos } else { len };
    let starts = grapheme_starts(text, true);
    proof {
        broadcast use encode_utf8_valid_utf8;

        lemma_prev_boundary(starts@, text.spec_bytes(), pos as int);
    }
    boundary_before(&starts, pos)
}

/// The end of the grapheme cluster that starts at or covers `pos`: the first
/// cluster start above `pos`, and the end of the text where there is none.
pub fn next_grapheme_boundary(text: &str, pos: usize) -> (r: usize)
    ensures
        r == next_boundary(grapheme_offsets(text@), clamped(text@, pos as int), byte_len(text@)),
        clamped(text@, pos as int) <= r <= byte_len(text@),
        pos < byte_len(text@) ==> pos < r,
        is_char_boundary(text.spec_bytes(), r as int),
        cluster_starts(grapheme_offsets(text@), text.spec_bytes()),
        forall|i: int|
            0 <= i < grapheme_offsets(text@).len() ==> !(clamped(text@, pos as int) < (
            #[trigger] grapheme_offsets(text@)[i]) < r),
{
    let len = len_of(text);
    let pos = if pos < len { pos } else { len };
    let starts = grapheme_starts(text, true);
    proof {
        broadcast use encode_utf8_valid_utf8;

        lemma_next_boundary(starts@, text.spec_bytes(), pos as int);
    }
    if pos >= len {
        return len;
    }
    boundary_after(&starts, pos, len)
}

/// Moves the cursor to the start of the cluster before it.
pub fn move_left_grapheme(text: &str, cursor: &mut usize)
    ensures
        *final(cursor) == prev_boundary(
            grapheme_offsets(text@),
            clamped(text@, *old(cursor) as int),
        ),
        is_char_boundary(text.spec_bytes(), *final(cursor) as int),
        cluster_starts(grapheme_offsets(text@), text.spec_bytes()),
{
    *cursor = prev_grapheme_boundary(text, *cursor);
}

/// Moves the cursor to the end of the cluster it stands in or before.
pub fn move_right_grapheme(text: &str, cursor: &mut usize)
    ensures
        *final(cursor) == next_boundary(
            grapheme_offsets(text@),
            clamped(text@, *old(cursor) as int),
            byte_len(text@),
        ),
        is_char_boundary(text.spec_bytes(), *final(cursor) as int),
        cluster_starts(grapheme_offsets(text@), text.spec_bytes()),
{
    *cursor = next_grapheme_boundary(text, *cursor);
}

/// A cursor that is safe to split the text at: `pos` taken within the text
/// where that is a character boundary, else the start of the cluster before.
pub open spec fn safe_cursor(text: Seq<char>, pos: int) -> int {
    if is_char_boundary(encode_utf8(text), clamped(text, pos)) {
        clamped(text, pos)
    } else {
        prev_boundary(grapheme_offsets(text), clamped(text, pos))
    }
}

/// A cursor that is safe to split the text at.
pub fn clamp_cursor(text: &str, pos: usize) -> (r: usize)
    ensures
        r == safe_cursor(text@, pos as int),
        r <= clamped(text@, pos as int),
        is_char_boundary(text.spec_bytes(), r as int),
        !is_char_boundary(text.spec_bytes(), clamped(text@, pos as int)) ==> cluster_starts(
            grapheme_offsets(text@),
            text.spec_bytes(),
        ),
{
    let len = len_of(text);
    let pos = if pos < len { pos } else { len };
    proof {
        broadcast use encode_utf8_valid_utf8;

        is_char_boundary_start_end_of_seq(text.spec_bytes());
    }
    if len == 0 {
        return 0;
    }
    if text.is_char_boundary(pos) {
        pos
    } else {
        prev_grapheme_boundary(text, pos)
    }
}

/// A boundary of a text is a boundary of each prefix that reaches it.
proof fn lemma_boundary_in_prefix(bytes: Seq<u8>, from: int, to: int)
    requires
        valid_utf8(bytes),
        from <= to,
        is_char_boundary(bytes, from),
        is_char_boundary(bytes, to),
    ensures
        0 <= from <= to <= bytes.len(),
        valid_utf8(bytes.subrange(0, to)),
        is_char_boundary(bytes.subrange(0, to), from),
{
    let prefix = bytes.subrange(0, to);
    valid_utf8_split(bytes, to);
    if from == to {
        is_char_boundary_start_end_of_seq(prefix);
    } else {
        is_char_boundary_iff_not_is_continuation_byte(bytes, from);
        is_char_boundary_iff_not_is_continuation_byte(prefix, from);
    }
}

/// Where two encodings meet is a boundary of the joined encoding.
proof fn lemma_boundary_at_join(head: Seq<u8>, tail: Seq<u8>)
    requires
        valid_utf8(head),
        valid_utf8(tail),
    ensures
        valid_utf8(head + tail),
        is_char_boundary(head + tail, head.len() as int),
{
    let joined = head + tail;
    valid_utf8_concat(head, tail);
    if tail.len() == 0 {
        assert(joined =~= head);
        is_char_boundary_start_end_of_seq(joined);
    } else {
        is_char_boundary_start_end_of_seq(tail);
        is_char_boundary_iff_not_is_continuation_byte(tail, 0);
        is_char_boundary_iff_not_is_continuation_byte(joined, head.len() as int);
    }
}

/// Taking a range between two boundaries out of an encoding leaves an
/// encoding in which the place of the range is a boundary.
proof fn lemma_without_range(bytes: Seq<u8>, from: int, to: int)
    requires
        valid_utf8(bytes),
        from <= to,
        is_char_boundary(bytes, from),
        is_char_boundary(bytes, to),
    ensures
        valid_utf8(without_range(bytes, from, to)),
        is_char_boundary(without_range(bytes, from, to), from),
        without_range(bytes, from, to).len() == bytes.len() - (to - from),
{
    lemma_boundary_in_prefix(bytes, from, to);
    valid_utf8_split(bytes, from);
    valid_utf8_split(bytes, to);
    lemma_boundary_at_join(bytes.subrange(0, from), bytes.subrange(to, bytes.len() as int));
}

/// The part of `text` between the boundaries `from` and `to`.
pub fn substring(text: &str, from: usize, to: usize) -> (part: &str)
    requires
        from <= to,
        is_char_boundary(text.spec_bytes(), from as int),
        is_char_boundary(text.spec_bytes(), to as int),
    ensures
        part.spec_bytes() == text.spec_bytes().subrange(from as int, to as int),
        part@ == span(text@, from as int, to as int),
{
    broadcast use encode_utf8_valid_utf8;

    let ghost bytes = text.spec_bytes();
    proof {
        lemma_boundary_in_prefix(bytes, from as int, to as int);
    }
    let (head, _) = text.split_at(to);
    let (_, part) = head.split_at(from);
    proof {
        assert(part.spec_bytes() =~= bytes.subrange(from as int, to as int));
        encode_utf8_decode_utf8(part@);
    }
    part
}

/// To take nothing out of a text leaves the text.
pub proof fn lemma_text_without_nothing(text: Seq<char>, at: int)
    requires
        0 <= at <= byte_len(text),
    ensures
        text_without(text, at, at) == text,
{
    assert(without_range(encode_utf8(text), at, at) =~= encode_utf8(text));
    encode_utf8_decode_utf8(text);
}

/// Whether the characters of `text` between the boundaries `from` and `to`
/// are all white space (`spaces`), or all something else.
fn span_is_uniform(text: &str, from: usize, to: usize, spaces: bool) -> (b: bool)
    requires
        from <= to,
        is_char_boundary(text.spec_bytes(), from as int),
        is_char_boundary(text.spec_bytes(), to as int),
    ensures
        b == uniform(span(text@, from as int, to as int), spaces),
{
    let part = substring(text, from, to);
    for c in iter: part.chars()
        invariant
            iter.seq() == part@,
            part@ == span(text@, from as int, to as int),
            forall|j: int| 0 <= j < iter.index() ==> is_whitespace(#[trigger] part@[j]) == spaces,
    {
        if c.is_whitespace() != spaces {
            assert(is_whitespace(part@[iter.index()]) != spaces);
            return false;
        }
    }
    true
}

/// Walks back from `pos` over the clusters that are uniform, by the
/// cluster starts of the text.
fn skip_backward(text: &str, starts: &Vec<usize>, pos: usize, spaces: bool) -> (r: usize)
    requires
        starts@ == grapheme_offsets(text@),
        cluster_starts(starts@, text.spec_bytes()),
        is_char_boundary(text.spec_bytes(), pos as int),
    ensures
        r == skip_back(text@, pos as int, spaces),
        r <= pos,
        is_char_boundary(text.spec_bytes(), r as int),
{
    broadcast use encode_utf8_valid_utf8;

    let mut at = pos;
    while at > 0
        invariant
            at <= pos,
            starts@ == grapheme_offsets(text@),
            cluster_starts(starts@, text.spec_bytes()),
            valid_utf8(text.spec_bytes()),
            is_char_boundary(text.spec_bytes(), at as int),
            skip_back(text@, at as int, spaces) == skip_back(text@, pos as int, spaces),
        ensures
            at <= pos,
            is_char_boundary(text.spec_bytes(), at as int),
            at == skip_back(text@, pos as int, spaces),
        decreases at,
    {
        proof {
            lemma_prev_boundary(starts@, text.spec_bytes(), at as int);
        }
        let prev = boundary_before(starts, at);
        if span_is_uniform(text, prev, at, spaces) {
            at = prev;
        } else {
            break ;
        }
    }
    at
}

/// Walks on from `pos` over the clusters that are uniform, by the cluster
/// starts of the text.
fn skip_onward(text: &str, starts: &Vec<usize>, pos: usize, spaces: bool) -> (r: usize)
    requires
        starts@ == grapheme_offsets(text@),
        cluster_starts(starts@, text.spec_bytes()),
        is_char_boundary(text.spec_bytes(), pos as int),
    ensures
        r == skip_forward(text@, pos as int, spaces),
        pos <= r <= byte_len(text@),
        is_char_boundary(text.spec_bytes(), r as int),
{
    broadcast use encode_utf8_valid_utf8;

    let len = len_of(text);
    let mut at = pos;
    while at < len
        invariant
            pos <= at <= len,
            len == byte_len(text@),
            starts@ == grapheme_offsets(text@),
            cluster_starts(starts@, text.spec_bytes()),
            valid_utf8(text.spec_bytes()),
            is_char_boundary(text.spec_bytes(), at as int),
            skip_forward(text@, at as int, spaces) == skip_forward(text@, pos as int, spaces),
        ensures
            pos <= at <= len,
            is_char_boundary(text.spec_bytes(), at as int),
            at == skip_forward(text@, pos as int, spaces),
        decreases len - at,
    {
        proof {
            lemma_next_boundary(starts@, text.spec_bytes(), at as int);
        }
        let next = boundary_after(starts, at, len);
        if span_is_uniform(text, at, next, spaces) {
            at = next;
        } else {
            break ;
        }
    }
    at
}

/// Takes the bytes between the boundaries `from` and `to` out of `text`.
pub fn remove_range(text: &mut String, from: usize, to: usize)
    requires
        from <= to,
        is_char_boundary(encode_utf8(old(text)@), from as int),
        is_char_boundary(encode_utf8(old(text)@), to as int),
    ensures
        encode_utf8(final(text)@) == without_range(
            encode_utf8(old(text)@),
            from as int,
            to as int,
        ),
        final(text)@ == text_without(old(text)@, from as int, to as int),
        is_char_boundary(encode_utf8(final(text)@), from as int),
        byte_len(final(text)@) == byte_len(old(text)@) - (to - from),
{
    broadcast use encode_utf8_valid_utf8;

    proof {
        lemma_without_range(encode_utf8(text@), from as int, to as int);
    }
    drain_range(text, from, to);
    proof {
        encode_utf8_decode_utf8(text@);
    }
}

/// Cuts `text` off at the boundary `to`.
pub fn cut_off(text: &mut String, to: usize)
    requires
        is_char_boundary(encode_utf8(old(text)@), to as int),
    ensures
        encode_utf8(final(text)@) == encode_utf8(old(text)@).subrange(0, to as int),
        final(text)@ == text_until(old(text)@, to as int),
        byte_len(final(text)@) == to,
        is_char_boundary(encode_utf8(final(text)@), to as int),
{
    broadcast use encode_utf8_valid_utf8;

    proof {
        let bytes = encode_utf8(text@);
        lemma_boundary_in_prefix(bytes, to as int, to as int);
    }
    text.truncate(to);
    proof {
        encode_utf8_decode_utf8(text@);
    }
}

/// Removes the cluster before the cursor and puts the cursor where it
/// started. At the start of the text nothing is removed.
pub fn delete_prev_grapheme(text: &mut String, cursor: &mut usize) -> (removed: bool)
    requires
        is_char_boundary(encode_utf8(old(text)@), *old(cursor) as int),
    ensures
        removed == (*old(cursor) > 0),
        *final(cursor) == prev_boundary(grapheme_offsets(old(text)@), *old(cursor) as int),
        encode_utf8(final(text)@) == without_range(
            encode_utf8(old(text)@),
            *final(cursor) as int,
            *old(cursor) as int,
        ),
        final(text)@ == text_without(old(text)@, *final(cursor) as int, *old(cursor) as int),
        !removed ==> final(text)@ == old(text)@,
        is_char_boundary(encode_utf8(final(text)@), *final(cursor) as int),
        removed ==> cluster_starts(grapheme_offsets(old(text)@), encode_utf8(old(text)@)),
{
    broadcast use encode_utf8_valid_utf8;

    let ghost bytes = encode_utf8(text@);
    if *cursor == 0 {
        proof {
            lemma_prev_boundary_floor(grapheme_offsets(text@));
            assert(without_range(bytes, 0, 0) =~= bytes);
            encode_utf8_decode_utf8(text@);
        }
        return false;
    }
    let prev = prev_grapheme_boundary(text.as_str(), *cursor);
    remove_range(text, prev, *cursor);
    *cursor = prev;
    true
}

/// Nothing lies below offset 0.
proof fn lemma_prev_boundary_floor(offsets: Seq<usize>)
    ensures
        prev_boundary(offsets, 0) == 0,
    decreases offsets.len(),
{
    if offsets.len() > 0 {
        lemma_prev_boundary_floor(offsets.drop_last());
    }
}

/// Removes the cluster at the cursor, which stays where it is. At the end of
/// the text nothing is removed.
pub fn delete_next_grapheme(text: &mut String, cursor: &mut usize) -> (removed: bool)
    requires
        *old(cursor) < byte_len(old(text)@) ==> is_char_boundary(
            encode_utf8(old(text)@),
            *old(cursor) as int,
        ),
    ensures
        removed == (*old(cursor) < byte_len(old(text)@)),
        *final(cursor) == *old(cursor),
        removed ==> encode_utf8(final(text)@) == without_range(
            encode_utf8(old(text)@),
            *old(cursor) as int,
            next_boundary(
                grapheme_offsets(old(text)@),
                *old(cursor) as int,
                byte_len(old(text)@),
            ),
        ),
        removed ==> final(text)@ == text_without(
            old(text)@,
            *old(cursor) as int,
            next_boundary(
                grapheme_offsets(old(text)@),
                *old(cursor) as int,
                byte_len(old(text)@),
            ),
        ),
        removed ==> is_char_boundary(encode_utf8(final(text)@), *final(cursor) as int),
        removed ==> cluster_starts(grapheme_offsets(old(text)@), encode_utf8(old(text)@)),
        !removed ==> final(text)@ == old(text)@,
{
    if *cursor >= len_of(text.as_str()) {
        return false;
    }
    let next = next_grapheme_boundary(text.as_str(), *cursor);
    remove_range(text, *cursor, next);
    true
}

/// Puts `c` in at the cursor and moves the cursor behind it.
pub fn insert_grapheme(text: &mut String, cursor: &mut usize, c: char)
    requires
        is_char_boundary(encode_utf8(old(text)@), *old(cursor) as int),
    ensures
        encode_utf8(final(text)@) == with_char(encode_utf8(old(text)@), *old(cursor) as int, c),
        final(text)@ == text_with(old(text)@, *old(cursor) as int, c),
        *final(cursor) == *old(cursor) + encode_scalar(c as u32).len(),
        is_char_boundary(encode_utf8(final(text)@), *final(cursor) as int),
{
    broadcast use encode_utf8_valid_utf8;

    let ghost bytes = encode_utf8(text@);
    let ghost at = *cursor as int;
    text.insert(*cursor, c);
    proof {
        let head = bytes.subrange(0, at) + encode_scalar(c as u32);
        let tail = bytes.subrange(at, bytes.len() as int);
        valid_utf8_split(bytes, at);
        lemma_scalar_is_valid(c);
        valid_utf8_concat(bytes.subrange(0, at), encode_scalar(c as u32));
        lemma_boundary_at_join(head, tail);
        assert(with_char(bytes, at, c) =~= head + tail);
        encode_utf8_decode_utf8(text@);
    }
    *cursor += c.len_utf8();
}

/// The encoding of one character is an encoding.
proof fn lemma_scalar_is_valid(c: char)
    ensures
        valid_utf8(encode_scalar(c as u32)),
        1 <= encode_scalar(c as u32).len() <= 4,
{
    let one = seq![c];
    reveal_with_fuel(encode_utf8, 2);
    assert(one.drop_first() =~= Seq::<char>::empty());
    assert(encode_utf8(one) =~= encode_scalar(c as u32));
    encode_utf8_valid_utf8(one);
}

/// Removes what lies between the start of the word before the cursor and the
/// cursor, and puts the cursor there.
pub fn delete_word(text: &mut String, cursor: &mut usize)
    requires
        is_char_boundary(encode_utf8(old(text)@), *old(cursor) as int),
    ensures
        *final(cursor) == word_start(old(text)@, *old(cursor) as int),
        encode_utf8(final(text)@) == without_range(
            encode_utf8(old(text)@),
            *final(cursor) as int,
            *old(cursor) as int,
        ),
        final(text)@ == text_without(old(text)@, *final(cursor) as int, *old(cursor) as int),
        is_char_boundary(encode_utf8(final(text)@), *final(cursor) as int),
        *final(cursor) <= *old(cursor),
        cluster_starts(grapheme_offsets(old(text)@), encode_utf8(old(text)@)),
        word_lies_before(old(text)@, *final(cursor) as int, *old(cursor) as int),
{
    let starts = grapheme_starts(text.as_str(), true);
    proof {
        lemma_word_start(text@, *cursor as int);
    }
    let end = skip_backward(text.as_str(), &starts, *cursor, true);
    let start = skip_backward(text.as_str(), &starts, end, false);
    remove_range(text, start, *cursor);
    *cursor = start;
}

/// Moves the cursor to the start of the word before it.
pub fn move_word_backward(text: &str, cursor: &mut usize)
    requires
        is_char_boundary(text.spec_bytes(), clamped(text@, *old(cursor) as int)),
    ensures
        *final(cursor) == word_start(text@, clamped(text@, *old(cursor) as int)),
        *final(cursor) <= clamped(text@, *old(cursor) as int),
        is_char_boundary(text.spec_bytes(), *final(cursor) as int),
        cluster_starts(grapheme_offsets(text@), text.spec_bytes()),
        word_lies_before(text@, *final(cursor) as int, clamped(text@, *old(cursor) as int)),
{
    let len = len_of(text);
    let pos = if *cursor < len { *cursor } else { len };
    let starts = grapheme_starts(text, true);
    proof {
        lemma_word_start(text@, pos as int);
    }
    let end = skip_backward(text, &starts, pos, true);
    *cursor = skip_backward(text, &starts, end, false);
}

/// Moves the cursor to the start of the word after the one it stands in.
pub fn move_word_forward(text: &str, cursor: &mut usize)
    requires
        is_char_boundary(text.spec_bytes(), clamped(text@, *old(cursor) as int)),
    ensures
        *final(cursor) == next_word_start(text@, clamped(text@, *old(cursor) as int)),
        clamped(text@, *old(cursor) as int) <= *final(cursor) <= byte_len(text@),
        is_char_boundary(text.spec_bytes(), *final(cursor) as int),
        cluster_starts(grapheme_offsets(text@), text.spec_bytes()),
        word_lies_after(text@, clamped(text@, *old(cursor) as int), *final(cursor) as int),
{
    let len = len_of(text);
    let pos = if *cursor < len { *cursor } else { len };
    let starts = grapheme_starts(text, true);
    proof {
        lemma_next_word_start(text@, pos as int);
    }
    let end = skip_onward(text, &starts, pos, false);
    *cursor = skip_onward(text, &starts, end, true);
}

/// What lies between two boundaries of a text is what lies between the
/// first and a boundary in between, and then between that and the second.
pub proof fn lemma_span_joins(text: Seq<char>, from: int, mid: int, to: int)
    requires
        from <= mid <= to,
        is_char_boundary(encode_utf8(text), from),
        is_char_boundary(encode_utf8(text), mid),
        is_char_boundary(encode_utf8(text), to),
    ensures
        span(text, from, to) == span(text, from, mid) + span(text, mid, to),
{
    let bytes = encode_utf8(text);
    encode_utf8_valid_utf8(text);
    lemma_boundary_in_prefix(bytes, from, to);
    lemma_boundary_in_prefix(bytes, mid, to);
    let prefix = bytes.subrange(0, to);
    let part = bytes.subrange(from, to);
    valid_utf8_split(prefix, from);
    assert(prefix.subrange(from, prefix.len() as int) =~= part);
    if mid == from || mid == to {
        is_char_boundary_start_end_of_seq(part);
    } else {
        is_char_boundary_iff_not_is_continuation_byte(bytes, mid);
        is_char_boundary_iff_not_is_continuation_byte(part, mid - from);
    }
    decode_utf8_split(part, mid - from);
    assert(part.subrange(0, mid - from) =~= bytes.subrange(from, mid));
    assert(part.subrange(mid - from, part.len() as int) =~= bytes.subrange(mid, to));
}

/// A text is uniform where its two parts are.
pub proof fn lemma_uniform_joins(head: Seq<char>, tail: Seq<char>, spaces: bool)
    ensures
        uniform(head + tail, spaces) == (uniform(head, spaces) && uniform(tail, spaces)),
{
    let whole = head + tail;
    if uniform(head, spaces) && uniform(tail, spaces) {
        assert forall|i: int| 0 <= i < whole.len() implies is_whitespace(#[trigger] whole[i])
            == spaces by {
            if i < head.len() {
                assert(whole[i] == head[i]);
            } else {
                assert(whole[i] == tail[i - head.len()]);
            }
        }
    }
    if uniform(whole, spaces) {
        assert forall|i: int| 0 <= i < head.len() implies is_whitespace(#[trigger] head[i])
            == spaces by {
            assert(whole[i] == head[i]);
        }
        assert forall|i: int| 0 <= i < tail.len() implies is_whitespace(#[trigger] tail[i])
            == spaces by {
            assert(whole[i + head.len()] == tail[i]);
        }
    }
}

/// Where a walk back stops: at a boundary at or before its start; all that
/// it has passed is uniform; and it stops at the start of the text or
/// behind a cluster that is not uniform. So the walk passes the longest run
/// of uniform clusters before its start.
pub proof fn lemma_skip_back_stops(text: Seq<char>, pos: int, spaces: bool)
    requires
        cluster_starts(grapheme_offsets(text), encode_utf8(text)),
        is_char_boundary(encode_utf8(text), pos),
    ensures
        0 <= skip_back(text, pos, spaces) <= pos,
        is_char_boundary(encode_utf8(text), skip_back(text, pos, spaces)),
        uniform(span(text, skip_back(text, pos, spaces), pos), spaces),
        skip_back(text, pos, spaces) > 0 ==> !uniform(
            span(
                text,
                prev_boundary(grapheme_offsets(text), skip_back(text, pos, spaces)),
                skip_back(text, pos, spaces),
            ),
            spaces,
        ),
    decreases pos,
{
    let bytes = encode_utf8(text);
    let offsets = grapheme_offsets(text);
    encode_utf8_valid_utf8(text);
    lemma_prev_boundary(offsets, bytes, pos);
    let prev = prev_boundary(offsets, pos);
    if 0 <= prev < pos && uniform(span(text, prev, pos), spaces) {
        lemma_skip_back_stops(text, prev, spaces);
        let stop = skip_back(text, prev, spaces);
        lemma_span_joins(text, stop, prev, pos);
        lemma_uniform_joins(span(text, stop, prev), span(text, prev, pos), spaces);
    } else {
        assert(bytes.subrange(pos, pos) =~= Seq::<u8>::empty());
        assert(span(text, pos, pos) =~= Seq::<char>::empty());
    }
}

/// Where a walk on stops: at a boundary at or after its start; all that it
/// has passed is uniform; and it stops at the end of the text or before a
/// cluster that is not uniform. So the walk passes the longest run of
/// uniform clusters after its start.
pub proof fn lemma_skip_forward_stops(text: Seq<char>, pos: int, spaces: bool)
    requires
        cluster_starts(grapheme_offsets(text), encode_utf8(text)),
        is_char_boundary(encode_utf8(text), pos),
    ensures
        pos <= skip_forward(text, pos, spaces) <= byte_len(text),
        is_char_boundary(encode_utf8(text), skip_forward(text, pos, spaces)),
        uniform(span(text, pos, skip_forward(text, pos, spaces)), spaces),
        skip_forward(text, pos, spaces) < byte_len(text) ==> !uniform(
            span(
                text,
                skip_forward(text, pos, spaces),
                next_boundary(
                    grapheme_offsets(text),
                    skip_forward(text, pos, spaces),
                    byte_len(text),
                ),
            ),
            spaces,
        ),
    decreases byte_len(text) - pos,
{
    let bytes = encode_utf8(text);
    let offsets = grapheme_offsets(text);
    encode_utf8_valid_utf8(text);
    lemma_next_boundary(offsets, bytes, pos);
    let next = next_boundary(offsets, pos, byte_len(text));
    if pos < next <= byte_len(text) && uniform(span(text, pos, next), spaces) {
        lemma_skip_forward_stops(text, next, spaces);
        let stop = skip_forward(text, next, spaces);
        lemma_span_joins(text, pos, next, stop);
        lemma_uniform_joins(span(text, pos, next), span(text, next, stop), spaces);
    } else {
        assert(bytes.subrange(pos, pos) =~= Seq::<u8>::empty());
        assert(span(text, pos, pos) =~= Seq::<char>::empty());
    }
}

/// What lies before `pos` back to `start`: a run free of white space from
/// `start` on, then a run of white space up to `pos`, each the longest
/// there is, cluster by cluster.
pub open spec fn word_lies_before(text: Seq<char>, start: int, pos: int) -> bool {
    let offsets = grapheme_offsets(text);
    let end = skip_back(text, pos, true);
    &&& 0 <= start <= end <= pos
    &&& uniform(span(text, end, pos), true)
    &&& uniform(span(text, start, end), false)
    &&& end > 0 ==> !uniform(span(text, prev_boundary(offsets, end), end), true)
    &&& start > 0 ==> !uniform(span(text, prev_boundary(offsets, start), start), false)
}

/// What lies after `pos` up to `stop`: a run free of white space from `pos`
/// on, then a run of white space up to `stop`, each the longest there is,
/// cluster by cluster.
pub open spec fn word_lies_after(text: Seq<char>, pos: int, stop: int) -> bool {
    let offsets = grapheme_offsets(text);
    let len = byte_len(text);
    let end = skip_forward(text, pos, false);
    &&& pos <= end <= stop <= len
    &&& uniform(span(text, pos, end), false)
    &&& uniform(span(text, end, stop), true)
    &&& end < len ==> !uniform(span(text, end, next_boundary(offsets, end, len)), false)
    &&& stop < len ==> !uniform(span(text, stop, next_boundary(offsets, stop, len)), true)
}

/// The start of the word before a boundary has the white space before the
/// boundary and the word before that behind it, and no more.
pub proof fn lemma_word_start(text: Seq<char>, pos: int)
    requires
        cluster_starts(grapheme_offsets(text), encode_utf8(text)),
        is_char_boundary(encode_utf8(text), pos),
    ensures
        word_lies_before(text, word_start(text, pos), pos),
        is_char_boundary(encode_utf8(text), word_start(text, pos)),
{
    lemma_skip_back_stops(text, pos, true);
    lemma_skip_back_stops(text, skip_back(text, pos, true), false);
}

/// The start of the next word has the word at a boundary and the white
/// space after it before it, and no more.
pub proof fn lemma_next_word_start(text: Seq<char>, pos: int)
    requires
        cluster_starts(grapheme_offsets(text), encode_utf8(text)),
        is_char_boundary(encode_utf8(text), pos),
    ensures
        word_lies_after(text, pos, next_word_start(text, pos)),
        is_char_boundary(encode_utf8(text), next_word_start(text, pos)),
{
    lemma_skip_forward_stops(text, pos, false);
    lemma_skip_forward_stops(text, skip_forward(text, pos, false), true);
}

/// Whether `pos` is the start of a cluster of the text, or its end.
pub open spec fn is_cluster_edge(text: Seq<char>, pos: int) -> bool {
    pos == byte_len(text) || exists|i: int|
        0 <= i < grapheme_offsets(text).len() && #[trigger] grapheme_offsets(text)[i] == pos
}

/// Between two boundaries that differ lies at least one character.
proof fn lemma_span_is_not_empty(text: Seq<char>, from: int, to: int)
    requires
        from < to,
        is_char_boundary(encode_utf8(text), from),
        is_char_boundary(encode_utf8(text), to),
    ensures
        span(text, from, to).len() > 0,
{
    let bytes = encode_utf8(text);
    encode_utf8_valid_utf8(text);
    lemma_boundary_in_prefix(bytes, from, to);
    let prefix = bytes.subrange(0, to);
    let part = bytes.subrange(from, to);
    valid_utf8_split(prefix, from);
    assert(prefix.subrange(from, prefix.len() as int) =~= part);
    assert(part.len() > 0);
    assert(decode_utf8(part).len() > 0);
}

/// A walk back from where a walk on has stopped stops where a walk back
/// from the start of the walk on stops: the two walks pass the same
/// clusters.
proof fn lemma_back_over_forward(text: Seq<char>, pos: int, spaces: bool)
    requires
        cluster_starts(grapheme_offsets(text), encode_utf8(text)),
        is_cluster_edge(text, pos),
    ensures
        skip_back(text, skip_forward(text, pos, spaces), spaces) == skip_back(text, pos, spaces),
        is_cluster_edge(text, skip_forward(text, pos, spaces)),
    decreases byte_len(text) - pos,
{
    let bytes = encode_utf8(text);
    let offsets = grapheme_offsets(text);
    let len = byte_len(text);
    encode_utf8_valid_utf8(text);
    let next = next_boundary(offsets, pos, len);
    if pos < next <= len && uniform(span(text, pos, next), spaces) {
        lemma_next_boundary(offsets, bytes, pos);
        let at = choose|i: int| 0 <= i < offsets.len() && #[trigger] offsets[i] == pos;
        lemma_left_undoes_right(offsets, bytes, at);
        lemma_back_over_forward(text, next, spaces);
        assert(skip_back(text, next, spaces) == skip_back(text, pos, spaces));
    }
}

/// A move to the start of the word before undoes a move to the start of the
/// next word, where the move began at the start of a word: at the start of
/// a cluster that is free of white space, with nothing free of white space
/// right before it.
pub proof fn lemma_back_undoes_forward(text: Seq<char>, pos: int)
    requires
        cluster_starts(grapheme_offsets(text), encode_utf8(text)),
        is_cluster_edge(text, pos),
        0 <= pos < byte_len(text),
        uniform(
            span(text, pos, next_boundary(grapheme_offsets(text), pos, byte_len(text))),
            false,
        ),
        skip_back(text, pos, false) == pos,
    ensures
        word_start(text, next_word_start(text, pos)) == pos,
{
    let bytes = encode_utf8(text);
    let offsets = grapheme_offsets(text);
    let len = byte_len(text);
    encode_utf8_valid_utf8(text);
    let at = choose|i: int| 0 <= i < offsets.len() && #[trigger] offsets[i] == pos;
    assert(is_char_boundary(bytes, offsets[at] as int));
    lemma_next_boundary(offsets, bytes, pos);
    let next = next_boundary(offsets, pos, len);
    let word_end = skip_forward(text, pos, false);
    let stop = skip_forward(text, word_end, true);
    lemma_skip_forward_stops(text, next, false);
    lemma_skip_forward_stops(text, pos, false);
    assert(word_end == skip_forward(text, next, false));
    assert(pos < word_end);
    lemma_back_over_forward(text, pos, false);
    lemma_back_over_forward(text, word_end, true);
    // The walk back over the white space stops at the end of the word.
    lemma_prev_boundary(offsets, bytes, word_end);
    let before = prev_boundary(offsets, word_end);
    assert(offsets[at] <= before);
    lemma_span_joins(text, pos, before, word_end);
    lemma_uniform_joins(span(text, pos, before), span(text, before, word_end), false);
    lemma_span_is_not_empty(text, before, word_end);
    let last = span(text, before, word_end);
    assert(!is_whitespace(last[0]));
    assert(!uniform(last, true));
    assert(skip_back(text, word_end, true) == word_end);
}

/// How often the byte `b` occurs in `bytes`.
pub open spec fn count_byte(bytes: Seq<u8>, b: u8) -> nat
    decreases bytes.len(),
{
    if bytes.len() == 0 {
        0
    } else {
        count_byte(bytes.drop_last(), b) + if bytes.last() == b {
            1nat
        } else {
            0nat
        }
    }
}

/// The byte that ends a line.
pub const LINE_FEED: u8 = 10;

/// The number of lines of a text: one for each line feed, and one more for
/// what follows the last line feed, if anything does.
pub open spec fn lines_of(text: Seq<char>) -> nat {
    let bytes = encode_utf8(text);
    count_byte(bytes, LINE_FEED) + if bytes.len() > 0 && bytes.last() != LINE_FEED {
        1nat
    } else {
        0nat
    }
}

/// The number of lines of `text`.
pub fn line_count(text: &str) -> (lines: usize)
    ensures
        lines == lines_of(text@),
{
    let bytes = text.as_bytes();
    let len = bytes.len();
    let mut feeds: usize = 0;
    let mut at: usize = 0;
    proof {
        assert(bytes@.take(0) =~= Seq::<u8>::empty());
    }
    while at < len
        invariant
            at <= len,
            len == bytes@.len(),
            feeds == count_byte(bytes@.take(at as int), LINE_FEED),
            feeds <= at,
            at > 0 && bytes@[at - 1] != LINE_FEED ==> feeds < at,
        decreases len - at,
    {
        proof {
            let next = bytes@.take(at + 1);
            assert(next.drop_last() =~= bytes@.take(at as int));
            assert(next.last() == bytes@[at as int]);
        }
        if bytes[at] == LINE_FEED {
            feeds += 1;
        }
        at += 1;
    }
    proof {
        assert(bytes@.take(len as int) =~= bytes@);
    }
    if len > 0 && bytes[len - 1] != LINE_FEED {
        feeds + 1
    } else {
        feeds
    }
}

} // verus!
