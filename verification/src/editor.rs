//! The search input's text editor: its text, the selection and the IME
//! composition, as UTF-8 byte offsets that always fall on character
//! boundaries; cursor movement by grapheme clusters; editing; and the UTF-16
//! offsets that platform input methods speak.

use vstd::prelude::*;

use crate::text::lemma_filter_push;
use vstd::utf8::{
    decode_utf8, encode_scalar, encode_utf8, encode_utf8_decode_utf8, encode_utf8_valid_utf8, has_width_1_encoding, has_width_2_encoding,
    has_width_3_encoding, has_width_4_encoding, is_char_boundary, is_char_boundary_iff_not_is_continuation_byte,
    is_char_boundary_start_end_of_seq, is_continuation_byte, valid_utf8, valid_utf8_concat,
};

verus! {

// =============================================================================
// UTF-8 facts
// =============================================================================

/// The encoding of two texts one after the other is the two encodings one
/// after the other.
pub proof fn lemma_encode_concat(a: Seq<char>, b: Seq<char>)
    ensures
        encode_utf8(a + b) == encode_utf8(a) + encode_utf8(b),
    decreases a.len(),
{
    if a.len() == 0 {
        assert(a + b =~= b);
        assert(encode_utf8(a) =~= Seq::<u8>::empty());
        assert(encode_utf8(a) + encode_utf8(b) =~= encode_utf8(b));
    } else {
        assert((a + b)[0] == a[0]);
        assert((a + b).drop_first() =~= a.drop_first() + b);
        lemma_encode_concat(a.drop_first(), b);
        assert(encode_utf8(a + b) =~= encode_scalar(a[0] as u32) + encode_utf8(a.drop_first() + b));
        assert(encode_utf8(a) + encode_utf8(b) =~= encode_scalar(a[0] as u32) + (encode_utf8(a.drop_first()) + encode_utf8(b)));
    }
}

/// Character boundaries of two valid encodings joined: the boundaries of the
/// first part, and those of the second shifted by the first's length.
pub proof fn lemma_boundary_concat(x: Seq<u8>, y: Seq<u8>)
    requires
        valid_utf8(x),
        valid_utf8(y),
    ensures
        valid_utf8(x + y),
        forall|i: int| 0 <= i <= x.len() ==> is_char_boundary(x + y, i) == #[trigger] is_char_boundary(x, i),
        forall|j: int| 0 <= j <= y.len() ==> is_char_boundary(x + y, x.len() + j) == #[trigger] is_char_boundary(y, j),
{
    valid_utf8_concat(x, y);
    let xy = x + y;
    is_char_boundary_start_end_of_seq(x);
    is_char_boundary_start_end_of_seq(y);
    is_char_boundary_start_end_of_seq(xy);
    assert forall|i: int| 0 <= i <= x.len() implies is_char_boundary(xy, i) == #[trigger] is_char_boundary(x, i) by {
        if i < x.len() {
            is_char_boundary_iff_not_is_continuation_byte(xy, i);
            is_char_boundary_iff_not_is_continuation_byte(x, i);
            assert(xy[i] == x[i]);
        } else if y.len() > 0 {
            is_char_boundary_iff_not_is_continuation_byte(xy, i);
            is_char_boundary_iff_not_is_continuation_byte(y, 0);
            assert(xy[i] == y[0]);
        } else {
            assert(xy.len() == x.len());
        }
    }
    assert forall|j: int| 0 <= j <= y.len() implies is_char_boundary(xy, x.len() + j) == #[trigger] is_char_boundary(y, j) by {
        if j < y.len() {
            is_char_boundary_iff_not_is_continuation_byte(xy, x.len() + j);
            is_char_boundary_iff_not_is_continuation_byte(y, j);
            assert(xy[x.len() + j] == y[j]);
        } else {
            assert(xy.len() == x.len() + j);
        }
    }
}

/// The bytes of a text.
pub open spec fn bytes_of(s: Seq<char>) -> Seq<u8> {
    encode_utf8(s)
}

/// Whether a byte offset falls on a character boundary of a text (its end
/// included).
pub open spec fn on_boundary(s: Seq<char>, i: int) -> bool {
    0 <= i <= bytes_of(s).len() && is_char_boundary(bytes_of(s), i)
}

/// A range of byte offsets.
#[derive(Debug, Clone, Copy, PartialEq, Eq, Structural)]
pub struct ByteRange {
    pub start: usize,
    pub end: usize,
}

/// A range within a text whose ends fall on character boundaries.
pub open spec fn valid_range(s: Seq<char>, r: ByteRange) -> bool {
    &&& r.start <= r.end
    &&& on_boundary(s, r.start as int)
    &&& on_boundary(s, r.end as int)
}

/// The bytes of a text with a byte range replaced by other bytes.
pub open spec fn spliced(b: Seq<u8>, start: int, end: int, new: Seq<u8>) -> Seq<u8> {
    b.subrange(0, start) + new + b.subrange(end, b.len() as int)
}

/// The text with a range of its bytes replaced by another text; the offsets
/// must fall on character boundaries, `start` may lie after `end`.
pub fn splice(text: &str, start: usize, end: usize, new_text: &str) -> (r: String)
    requires
        on_boundary(text@, start as int),
        on_boundary(text@, end as int),
    ensures
        bytes_of(r@) == spliced(bytes_of(text@), start as int, end as int, bytes_of(new_text@)),
        on_boundary(r@, start as int + bytes_of(new_text@).len()),
        on_boundary(r@, start as int),
{
    let (pre, _) = text.split_at(start);
    let (_, post) = text.split_at(end);
    let mut out = String::from_str(pre);
    out.append(new_text);
    out.append(post);
    proof {
        let b = bytes_of(text@);
        encode_utf8_valid_utf8(pre@);
        encode_utf8_valid_utf8(new_text@);
        encode_utf8_valid_utf8(post@);
        lemma_encode_concat(pre@, new_text@);
        lemma_encode_concat(pre@ + new_text@, post@);
        assert(out@ =~= pre@ + new_text@ + post@);
        let x = bytes_of(pre@);
        let n = bytes_of(new_text@);
        let y = bytes_of(post@);
        assert(x == b.subrange(0, start as int));
        assert(y == b.subrange(end as int, b.len() as int));
        lemma_boundary_concat(x, n);
        lemma_boundary_concat(x + n, y);
        is_char_boundary_start_end_of_seq(n);
        is_char_boundary_start_end_of_seq(x);
        is_char_boundary_start_end_of_seq(y);
        assert(is_char_boundary(x + n, x.len() + n.len() as int));
        assert(is_char_boundary(x + n + y, (x + n).len() as int));
        assert(is_char_boundary(x + n, x.len() as int));
        assert(is_char_boundary(x + n + y, x.len() as int));
    }
    out
}

/// The bytes of a text's first `k` characters are a prefix of its bytes, and
/// their length is a character boundary.
pub proof fn lemma_prefix_boundary(s: Seq<char>, k: int)
    requires
        0 <= k <= s.len(),
    ensures
        on_boundary(s, bytes_of(s.take(k)).len() as int),
        bytes_of(s.take(k)).len() <= bytes_of(s).len(),
{
    assert(s =~= s.take(k) + s.skip(k));
    lemma_encode_concat(s.take(k), s.skip(k));
    encode_utf8_valid_utf8(s.take(k));
    encode_utf8_valid_utf8(s.skip(k));
    lemma_boundary_concat(bytes_of(s.take(k)), bytes_of(s.skip(k)));
    is_char_boundary_start_end_of_seq(bytes_of(s.take(k)));
}

/// One more character adds its encoding.
pub proof fn lemma_encode_push(s: Seq<char>, k: int)
    requires
        0 <= k < s.len(),
    ensures
        bytes_of(s.take(k + 1)) == bytes_of(s.take(k)) + encode_scalar(s[k] as u32),
{
    assert(s.take(k + 1) =~= s.take(k) + seq![s[k]]);
    lemma_encode_concat(s.take(k), seq![s[k]]);
    reveal_with_fuel(encode_utf8, 2);
    assert(seq![s[k]].drop_first() =~= Seq::<char>::empty());
    assert(encode_utf8(seq![s[k]]) =~= encode_scalar(s[k] as u32));
}

/// The number of bytes in a character's UTF-8 encoding.
pub fn utf8_width(c: char) -> (r: usize)
    ensures
        r == encode_scalar(c as u32).len(),
        1 <= r <= 4,
{
    let v = c as u32;
    proof {
        vstd::utf8::char_is_scalar(c);
    }
    if v < 0x80 {
        1
    } else if v < 0x800 {
        2
    } else if v < 0x10000 {
        3
    } else {
        4
    }
}

/// The number of UTF-16 code units of a character.
pub open spec fn utf16_width(c: char) -> nat {
    if (c as u32) < 0x10000 {
        1
    } else {
        2
    }
}

/// The number of UTF-16 code units of a character.
pub fn utf16_units(c: char) -> (r: usize)
    ensures
        r == utf16_width(c),
        r <= encode_scalar(c as u32).len(),
{
    proof {
        vstd::utf8::char_is_scalar(c);
    }
    if (c as u32) < 0x10000 {
        1
    } else {
        2
    }
}

/// The number of UTF-16 code units of a text.
pub open spec fn utf16_len(s: Seq<char>) -> nat
    decreases s.len(),
{
    if s.len() == 0 {
        0
    } else {
        utf16_len(s.drop_last()) + utf16_width(s.last())
    }
}

/// The number of characters to walk until `target` UTF-16 units are
/// reached (or the text ends), starting from `k` characters.
pub open spec fn utf16_stop(s: Seq<char>, target: int, k: int) -> int
    decreases s.len() - k,
{
    if k < 0 || k >= s.len() || utf16_len(s.take(k)) >= target {
        k
    } else {
        utf16_stop(s, target, k + 1)
    }
}

/// The number of characters to walk until `offset` bytes are reached (or
/// the text ends), starting from `k` characters.
pub open spec fn utf8_stop(s: Seq<char>, offset: int, k: int) -> int
    decreases s.len() - k,
{
    if k < 0 || k >= s.len() || bytes_of(s.take(k)).len() >= offset {
        k
    } else {
        utf8_stop(s, offset, k + 1)
    }
}

proof fn lemma_utf16_stop_bounds(s: Seq<char>, target: int, k: int)
    requires
        0 <= k <= s.len(),
    ensures
        k <= utf16_stop(s, target, k) <= s.len(),
    decreases s.len() - k,
{
    if k < s.len() && utf16_len(s.take(k)) < target {
        lemma_utf16_stop_bounds(s, target, k + 1);
    }
}

proof fn lemma_utf16_stop_monotone(s: Seq<char>, t1: int, t2: int, k: int)
    requires
        0 <= k <= s.len(),
        t1 <= t2,
    ensures
        utf16_stop(s, t1, k) <= utf16_stop(s, t2, k),
    decreases s.len() - k,
{
    lemma_utf16_stop_bounds(s, t1, k);
    lemma_utf16_stop_bounds(s, t2, k);
    if k < s.len() && utf16_len(s.take(k)) < t1 {
        lemma_utf16_stop_monotone(s, t1, t2, k + 1);
    }
}

proof fn lemma_utf8_stop_bounds(s: Seq<char>, offset: int, k: int)
    requires
        0 <= k <= s.len(),
    ensures
        k <= utf8_stop(s, offset, k) <= s.len(),
    decreases s.len() - k,
{
    if k < s.len() && bytes_of(s.take(k)).len() < offset {
        lemma_utf8_stop_bounds(s, offset, k + 1);
    }
}

/// Prefixes that are longer in characters are longer in bytes.
proof fn lemma_prefix_bytes_monotone(s: Seq<char>, a: int, b: int)
    requires
        0 <= a <= b <= s.len(),
    ensures
        bytes_of(s.take(a)).len() <= bytes_of(s.take(b)).len(),
{
    assert(s.take(b) =~= s.take(a) + s.take(b).skip(a));
    lemma_encode_concat(s.take(a), s.take(b).skip(a));
}

/// The byte offset of a UTF-16 offset: the bytes of the characters walked
/// until that many UTF-16 units are reached (or the text ends). It always
/// falls on a character boundary.
pub fn offset_from_utf16(text: &str, utf16_offset: usize) -> (r: usize)
    ensures
        r == bytes_of(text@.take(utf16_stop(text@, utf16_offset as int, 0))).len(),
        on_boundary(text@, r as int),
{
    let n = text.unicode_len();
    let nb = text.as_bytes().len();
    let mut utf8_offset: usize = 0;
    let mut utf16_count: usize = 0;
    let mut i: usize = 0;
    proof {
        assert(text@.take(0) =~= Seq::<char>::empty());
        assert(bytes_of(text@.take(0)) =~= Seq::<u8>::empty());
        lemma_prefix_boundary(text@, 0);
    }
    while i < n
        invariant
            n == text@.len(),
            nb == bytes_of(text@).len(),
            i <= n,
            utf8_offset == bytes_of(text@.take(i as int)).len(),
            utf16_count == utf16_len(text@.take(i as int)),
            utf16_count <= utf8_offset,
            utf8_offset <= nb,
            utf16_stop(text@, utf16_offset as int, 0) == utf16_stop(text@, utf16_offset as int, i as int),
        ensures
            i == n || utf16_count >= utf16_offset,
            utf8_offset == bytes_of(text@.take(i as int)).len(),
            utf16_stop(text@, utf16_offset as int, 0) == utf16_stop(text@, utf16_offset as int, i as int),
            i <= n,
        decreases n - i,
    {
        if utf16_count >= utf16_offset {
            break;
        }
        let c = text.get_char(i);
        proof {
            lemma_encode_push(text@, i as int);
            assert(text@.take(i as int + 1).drop_last() =~= text@.take(i as int));
            assert(text@.take(i as int + 1).last() == c);
            lemma_prefix_boundary(text@, i as int + 1);
        }
        let w16 = utf16_units(c);
        let w8 = utf8_width(c);
        utf16_count = utf16_count + w16;
        utf8_offset = utf8_offset + w8;
        i = i + 1;
    }
    proof {
        lemma_prefix_boundary(text@, i as int);
        assert(utf16_stop(text@, utf16_offset as int, i as int) == i);
    }
    utf8_offset
}

/// The UTF-16 offset of a byte offset: the UTF-16 units of the characters
/// walked until that many bytes are reached.
pub fn offset_to_utf16(text: &str, utf8_offset: usize) -> (r: usize)
    requires
        on_boundary(text@, utf8_offset as int),
    ensures
        r == utf16_len(text@.take(utf8_stop(text@, utf8_offset as int, 0))),
{
    let n = text.unicode_len();
    let nb = text.as_bytes().len();
    let mut bytes: usize = 0;
    let mut utf16_count: usize = 0;
    let mut i: usize = 0;
    proof {
        assert(text@.take(0) =~= Seq::<char>::empty());
        assert(bytes_of(text@.take(0)) =~= Seq::<u8>::empty());
        lemma_prefix_boundary(text@, 0);
    }
    while i < n
        invariant
            n == text@.len(),
            nb == bytes_of(text@).len(),
            i <= n,
            bytes == bytes_of(text@.take(i as int)).len(),
            utf16_count == utf16_len(text@.take(i as int)),
            utf16_count <= bytes,
            bytes <= nb,
            utf8_stop(text@, utf8_offset as int, 0) == utf8_stop(text@, utf8_offset as int, i as int),
        ensures
            i == n || bytes >= utf8_offset,
            utf16_count == utf16_len(text@.take(i as int)),
            utf8_stop(text@, utf8_offset as int, 0) == utf8_stop(text@, utf8_offset as int, i as int),
            i <= n,
        decreases n - i,
    {
        if bytes >= utf8_offset {
            break;
        }
        let c = text.get_char(i);
        proof {
            lemma_encode_push(text@, i as int);
            assert(text@.take(i as int + 1).drop_last() =~= text@.take(i as int));
            assert(text@.take(i as int + 1).last() == c);
            lemma_prefix_boundary(text@, i as int + 1);
        }
        let w16 = utf16_units(c);
        let w8 = utf8_width(c);
        utf16_count = utf16_count + w16;
        bytes = bytes + w8;
        i = i + 1;
    }
    proof {
        assert(utf8_stop(text@, utf8_offset as int, i as int) == i);
    }
    utf16_count
}

/// The byte offsets at which the extended grapheme clusters of a text start,
/// in order, as `unicode-segmentation` finds them.
pub uninterp spec fn grapheme_starts(s: Seq<char>) -> Seq<usize>;

/// The start offsets of the text's extended grapheme clusters.
///
/// Calls `UnicodeSegmentation::grapheme_indices(text, true)` and keeps the
/// offsets. The contract names the result `grapheme_starts` of the text, and
/// claims what the crate documents: each offset is the byte offset of a
/// slice of the text, so it falls on a character boundary.
#[verifier::external_body]
fn grapheme_offsets(text: &str) -> (r: Vec<usize>)
    ensures
        r@ == grapheme_starts(text@),
        forall|i: int| 0 <= i < r@.len() ==> on_boundary(text@, #[trigger] r@[i] as int),
{
    unicode_segmentation::UnicodeSegmentation::grapheme_indices(text, true).map(|(i, _)| i).collect()
}

/// The last start in order that lies before `offset`, if any.
pub open spec fn last_before(starts: Seq<usize>, offset: int) -> Option<usize>
    decreases starts.len(),
{
    if starts.len() == 0 {
        None
    } else if starts.last() < offset {
        Some(starts.last())
    } else {
        last_before(starts.drop_last(), offset)
    }
}

/// The first start in order that lies after `offset`, if any.
pub open spec fn first_after(starts: Seq<usize>, offset: int) -> Option<usize>
    decreases starts.len(),
{
    if starts.len() == 0 {
        None
    } else if starts[0] > offset {
        Some(starts[0])
    } else {
        first_after(starts.drop_first(), offset)
    }
}

/// The grapheme boundary before an offset: the last grapheme start before
/// it, or 0.
pub fn previous_boundary(text: &str, offset: usize) -> (r: usize)
    ensures
        r == match last_before(grapheme_starts(text@), offset as int) {
            Some(x) => x,
            None => 0,
        },
        on_boundary(text@, r as int),
{
    let starts = grapheme_offsets(text);
    let ghost all = starts@;
    let mut k = starts.len();
    proof {
        assert(all.take(all.len() as int) =~= all);
    }
    while k > 0
        invariant
            k <= starts@.len(),
            all == starts@,
            all == grapheme_starts(text@),
            forall|i: int| 0 <= i < all.len() ==> on_boundary(text@, #[trigger] all[i] as int),
            last_before(all, offset as int) == last_before(all.take(k as int), offset as int),
        decreases k,
    {
        proof {
            assert(all.take(k as int).drop_last() =~= all.take(k as int - 1));
            assert(all.take(k as int).last() == all[k as int - 1]);
        }
        if starts[k - 1] < offset {
            proof {
                assert(on_boundary(text@, all[k as int - 1] as int));
                assert(last_before(all.take(k as int), offset as int) == Some(all[k as int - 1]));
            }
            return starts[k - 1];
        }
        k = k - 1;
    }
    proof {
        encode_utf8_valid_utf8(text@);
        is_char_boundary_start_end_of_seq(bytes_of(text@));
        assert(all.take(0) =~= Seq::<usize>::empty());
    }
    0
}

/// The grapheme boundary after an offset: the first grapheme start after
/// it, or the end of the text.
pub fn next_boundary(text: &str, offset: usize) -> (r: usize)
    ensures
        r == match first_after(grapheme_starts(text@), offset as int) {
            Some(x) => x as int,
            None => bytes_of(text@).len() as int,
        },
        on_boundary(text@, r as int),
{
    let starts = grapheme_offsets(text);
    let ghost all = starts@;
    let mut k: usize = 0;
    proof {
        assert(all.skip(0) =~= all);
    }
    while k < starts.len()
        invariant
            k <= starts@.len(),
            all == starts@,
            all == grapheme_starts(text@),
            forall|i: int| 0 <= i < all.len() ==> on_boundary(text@, #[trigger] all[i] as int),
            first_after(all, offset as int) == first_after(all.skip(k as int), offset as int),
        decreases starts@.len() - k,
    {
        proof {
            assert(all.skip(k as int).drop_first() =~= all.skip(k as int + 1));
            assert(all.skip(k as int)[0] == all[k as int]);
        }
        if starts[k] > offset {
            proof {
                assert(on_boundary(text@, all[k as int] as int));
                assert(first_after(all.skip(k as int), offset as int) == Some(all[k as int]));
            }
            return starts[k];
        }
        k = k + 1;
    }
    proof {
        encode_utf8_valid_utf8(text@);
        is_char_boundary_start_end_of_seq(bytes_of(text@));
        assert(all.skip(all.len() as int) =~= Seq::<usize>::empty());
    }
    text.as_bytes().len()
}

/// What the editor tells its owner.
#[derive(Debug, Clone)]
pub enum SearchInputEvent {
    /// The text changed.
    Changed(String),
    /// Enter was pressed: run the current selection.
    Submit,
    /// Backspace on empty input: go back a view.
    Back,
}

/// The text with every newline replaced by a space.
pub open spec fn single_line(s: Seq<char>) -> Seq<char> {
    s.map_values(|c: char| if c == '\n' { ' ' } else { c })
}

/// Replace newlines with spaces, for a single-line input.
pub fn to_single_line(s: &str) -> (r: String)
    ensures
        r@ == single_line(s@),
{
    let n = s.unicode_len();
    let mut out = String::new();
    let mut i: usize = 0;
    while i < n
        invariant
            n == s@.len(),
            i <= n,
            out@ == single_line(s@.take(i as int)),
        decreases n - i,
    {
        if s.get_char(i) == '\n' {
            out.append(" ");
            proof {
                reveal_strlit(" ");
            }
        } else {
            out.append(s.substring_char(i, i + 1));
        }
        proof {
            assert(s@.take(i as int + 1) =~= s@.take(i as int).push(s@[i as int]));
            assert(out@ =~= single_line(s@.take(i as int + 1)));
        }
        i = i + 1;
    }
    proof {
        assert(s@.take(n as int) =~= s@);
    }
    out
}

/// The byte range that a UTF-16 range stands for in a text.
pub open spec fn range_from_utf16_spec(s: Seq<char>, r: ByteRange) -> ByteRange {
    ByteRange {
        start: bytes_of(s.take(utf16_stop(s, r.start as int, 0))).len() as usize,
        end: bytes_of(s.take(utf16_stop(s, r.end as int, 0))).len() as usize,
    }
}

/// The UTF-16 range that a byte range stands for in a text.
pub open spec fn range_to_utf16_spec(s: Seq<char>, r: ByteRange) -> ByteRange {
    ByteRange {
        start: utf16_len(s.take(utf8_stop(s, r.start as int, 0))) as usize,
        end: utf16_len(s.take(utf8_stop(s, r.end as int, 0))) as usize,
    }
}

/// The byte range of a UTF-16 range. Both ends fall on character boundaries.
pub fn range_from_utf16(text: &str, r: ByteRange) -> (out: ByteRange)
    ensures
        out == range_from_utf16_spec(text@, r),
        on_boundary(text@, out.start as int),
        on_boundary(text@, out.end as int),
        r.start <= r.end ==> out.start <= out.end,
{
    proof {
        if r.start <= r.end {
            lemma_utf16_stop_monotone(text@, r.start as int, r.end as int, 0);
            lemma_utf16_stop_bounds(text@, r.end as int, 0);
            lemma_utf16_stop_bounds(text@, r.start as int, 0);
            lemma_prefix_bytes_monotone(text@, utf16_stop(text@, r.start as int, 0), utf16_stop(text@, r.end as int, 0));
        }
    }
    ByteRange { start: offset_from_utf16(text, r.start), end: offset_from_utf16(text, r.end) }
}

/// The UTF-16 range of a byte range whose ends fall on character boundaries.
pub fn range_to_utf16(text: &str, r: ByteRange) -> (out: ByteRange)
    requires
        on_boundary(text@, r.start as int),
        on_boundary(text@, r.end as int),
    ensures
        out == range_to_utf16_spec(text@, r),
{
    ByteRange { start: offset_to_utf16(text, r.start), end: offset_to_utf16(text, r.end) }
}

/// A run of the displayed text: its length in bytes, and whether it is
/// underlined because its text is being composed.
#[derive(Debug, Clone, Copy, PartialEq, Eq, Structural)]
pub struct TextRunSpan {
    pub len: usize,
    pub underlined: bool,
}

/// Whether a run is not empty.
pub open spec fn non_empty_run() -> spec_fn(TextRunSpan) -> bool {
    |r: TextRunSpan| r.len > 0
}

/// The runs of the displayed text. An empty text shows the placeholder in
/// one plain run. Otherwise the text is one plain run, or, while a range is
/// being composed, the runs before it, of it (underlined) and after it, with
/// the empty ones left out.
pub open spec fn display_runs(text: Seq<char>, placeholder: Seq<char>, marked: Option<ByteRange>) -> Seq<TextRunSpan> {
    if text.len() == 0 {
        seq![TextRunSpan { len: bytes_of(placeholder).len() as usize, underlined: false }]
    } else {
        let n = bytes_of(text).len();
        match marked {
            None => seq![TextRunSpan { len: n as usize, underlined: false }],
            Some(m) => seq![
                TextRunSpan { len: m.start, underlined: false },
                TextRunSpan { len: (m.end - m.start) as usize, underlined: true },
                TextRunSpan { len: (if n > m.end { n - m.end } else { 0 }) as usize, underlined: false },
            ].filter(non_empty_run()),
        }
    }
}

/// The text editor of the search input: UTF-8 text, the selection (the
/// cursor when empty), which end of it is active, and the IME composition.
#[derive(Debug)]
pub struct TextEditor {
    text: String,
    selected_range: ByteRange,
    selection_reversed: bool,
    marked_range: Option<ByteRange>,
    placeholder: String,
    is_selecting: bool,
}

/// The selection after extending its active end to `offset`: the ends are
/// swapped (and the direction flipped) when they cross.
pub open spec fn extended(r: ByteRange, reversed: bool, offset: usize) -> (ByteRange, bool) {
    let moved = if reversed { ByteRange { start: offset, ..r } } else { ByteRange { end: offset, ..r } };
    if moved.end < moved.start {
        (ByteRange { start: moved.end, end: moved.start }, !reversed)
    } else {
        (moved, reversed)
    }
}

/// The anchor of a selection: the end that stays put while the selection is
/// extended (its end when it was made right to left, else its start).
pub open spec fn anchor_of(r: ByteRange, reversed: bool) -> usize {
    if reversed { r.end } else { r.start }
}

/// The active end of a selection: the end that moves (the cursor).
pub open spec fn active_of(r: ByteRange, reversed: bool) -> usize {
    if reversed { r.start } else { r.end }
}

/// Extending a selection keeps its anchor and puts its active end at the
/// offset: the new selection runs from the old anchor to the offset, in
/// whichever direction, so a selection extended leftwards past or towards
/// its anchor keeps the anchor where it was.
pub proof fn law_extend_keeps_anchor(r: ByteRange, reversed: bool, offset: usize)
    requires
        r.start <= r.end,
    ensures
        ({
            let (r2, rev2) = extended(r, reversed, offset);
            &&& anchor_of(r2, rev2) == anchor_of(r, reversed)
            &&& active_of(r2, rev2) == offset
            &&& r2.start <= r2.end
            &&& r2.start == (if offset < anchor_of(r, reversed) { offset } else { anchor_of(r, reversed) })
            &&& r2.end == (if offset < anchor_of(r, reversed) { anchor_of(r, reversed) } else { offset })
            &&& (offset < anchor_of(r, reversed) ==> rev2)
            &&& (offset > anchor_of(r, reversed) ==> !rev2)
        }),
{
}

impl TextEditor {
    /// The text.
    pub closed spec fn text_spec(&self) -> Seq<char> {
        self.text@
    }

    /// The selection.
    pub closed spec fn selection(&self) -> ByteRange {
        self.selected_range
    }

    /// Whether the selection was made right to left (cursor at its start).
    pub closed spec fn reversed(&self) -> bool {
        self.selection_reversed
    }

    /// The IME composition range.
    pub closed spec fn marked(&self) -> Option<ByteRange> {
        self.marked_range
    }

    /// Whether the mouse is selecting.
    pub closed spec fn selecting(&self) -> bool {
        self.is_selecting
    }

    /// The placeholder shown when the text is empty.
    pub closed spec fn placeholder_spec(&self) -> Seq<char> {
        self.placeholder@
    }

    /// The selection and the composition lie within the text, on character
    /// boundaries.
    pub open spec fn wf(&self) -> bool {
        &&& valid_range(self.text_spec(), self.selection())
        &&& (self.marked() matches Some(m) ==> valid_range(self.text_spec(), m))
    }

    /// The position of the cursor: the active end of the selection.
    pub open spec fn cursor_spec(&self) -> usize {
        if self.reversed() {
            self.selection().start
        } else {
            self.selection().end
        }
    }

    /// An empty editor.
    pub fn new(placeholder: String) -> (r: Self)
        ensures
            r.wf(),
            r.text_spec().len() == 0,
            r.selection() == (ByteRange { start: 0, end: 0 }),
            !r.reversed(),
            r.marked() is None,
            !r.selecting(),
            r.placeholder_spec() == placeholder@,
    {
        let r = TextEditor {
            text: String::new(),
            selected_range: ByteRange { start: 0, end: 0 },
            selection_reversed: false,
            marked_range: None,
            placeholder,
            is_selecting: false,
        };
        proof {
            encode_utf8_valid_utf8(r.text@);
            is_char_boundary_start_end_of_seq(bytes_of(r.text@));
            assert(bytes_of(r.text@) =~= Seq::<u8>::empty());
        }
        r
    }

    /// The text.
    pub fn text(&self) -> (r: &str)
        ensures
            r@ == self.text_spec(),
    {
        self.text.as_str()
    }

    /// The placeholder.
    pub fn placeholder(&self) -> (r: &str)
        ensures
            r@ == self.placeholder_spec(),
    {
        self.placeholder.as_str()
    }

    /// The runs in which the displayed text is drawn.
    pub fn text_runs(&self) -> (r: Vec<TextRunSpan>)
        requires
            self.wf(),
        ensures
            r@ == display_runs(self.text_spec(), self.placeholder_spec(), self.marked()),
    {
        let mut runs: Vec<TextRunSpan> = Vec::new();
        if self.text.unicode_len() == 0 {
            runs.push(TextRunSpan { len: self.placeholder.as_str().as_bytes().len(), underlined: false });
            proof {
                assert(runs@ =~= display_runs(self.text_spec(), self.placeholder_spec(), self.marked()));
            }
            return runs;
        }
        let n = self.text.as_str().as_bytes().len();
        match self.marked_range {
            None => {
                runs.push(TextRunSpan { len: n, underlined: false });
                proof {
                    assert(runs@ =~= display_runs(self.text_spec(), self.placeholder_spec(), self.marked()));
                }
            },
            Some(m) => {
                let a = TextRunSpan { len: m.start, underlined: false };
                let b = TextRunSpan { len: m.end - m.start, underlined: true };
                let c = TextRunSpan { len: if n > m.end { n - m.end } else { 0 }, underlined: false };
                let ghost p = non_empty_run();
                proof {
                    lemma_filter_push(Seq::<TextRunSpan>::empty(), a, p);
                    lemma_filter_push(seq![a], b, p);
                    lemma_filter_push(seq![a, b], c, p);
                    assert(Seq::<TextRunSpan>::empty().push(a) =~= seq![a]);
                    assert(seq![a].push(b) =~= seq![a, b]);
                    assert(seq![a, b].push(c) =~= seq![a, b, c]);
                    reveal(Seq::filter);
                    assert(Seq::<TextRunSpan>::empty().filter(p) =~= Seq::<TextRunSpan>::empty());
                }
                if a.len > 0 {
                    runs.push(a);
                }
                if b.len > 0 {
                    runs.push(b);
                }
                if c.len > 0 {
                    runs.push(c);
                }
                proof {
                    assert(runs@ =~= seq![a, b, c].filter(p));
                }
            },
        }
        runs
    }

    /// The selection in bytes.
    pub fn selected_range(&self) -> (r: ByteRange)
        ensures
            r == self.selection(),
    {
        self.selected_range
    }

    /// The composition range in bytes.
    pub fn marked_range(&self) -> (r: Option<ByteRange>)
        ensures
            r == self.marked(),
    {
        self.marked_range
    }

    /// Whether the selection was made right to left.
    pub fn selection_reversed(&self) -> (r: bool)
        ensures
            r == self.reversed(),
    {
        self.selection_reversed
    }

    /// The cursor position (the active end of the selection).
    pub fn cursor_offset(&self) -> (r: usize)
        ensures
            r == self.cursor_spec(),
    {
        if self.selection_reversed {
            self.selected_range.start
        } else {
            self.selected_range.end
        }
    }

    /// Move the cursor to an offset, collapsing the selection.
    pub fn move_to(&mut self, offset: usize)
        requires
            old(self).wf(),
            on_boundary(old(self).text_spec(), offset as int),
        ensures
            final(self).wf(),
            final(self).selection() == (ByteRange { start: offset, end: offset }),
            final(self).text_spec() == old(self).text_spec(),
            final(self).reversed() == old(self).reversed(),
            final(self).marked() == old(self).marked(),
            final(self).selecting() == old(self).selecting(),
            final(self).placeholder_spec() == old(self).placeholder_spec(),
    {
        self.selected_range = ByteRange { start: offset, end: offset };
    }

    /// Extend the selection's active end to an offset.
    pub fn select_to(&mut self, offset: usize)
        requires
            old(self).wf(),
            on_boundary(old(self).text_spec(), offset as int),
        ensures
            final(self).wf(),
            (final(self).selection(), final(self).reversed()) == extended(old(self).selection(), old(self).reversed(), offset),
            anchor_of(final(self).selection(), final(self).reversed()) == anchor_of(old(self).selection(), old(self).reversed()),
            active_of(final(self).selection(), final(self).reversed()) == offset,
            final(self).text_spec() == old(self).text_spec(),
            final(self).marked() == old(self).marked(),
            final(self).selecting() == old(self).selecting(),
            final(self).placeholder_spec() == old(self).placeholder_spec(),
    {
        proof {
            law_extend_keeps_anchor(self.selected_range, self.selection_reversed, offset);
        }
        if self.selection_reversed {
            self.selected_range.start = offset;
        } else {
            self.selected_range.end = offset;
        }
        if self.selected_range.end < self.selected_range.start {
            self.selection_reversed = !self.selection_reversed;
            self.selected_range = ByteRange { start: self.selected_range.end, end: self.selected_range.start };
        }
    }

    /// Select all text (as on focus).
    pub fn select_all(&mut self)
        requires
            old(self).wf(),
        ensures
            final(self).wf(),
            final(self).selection() == (ByteRange { start: 0, end: bytes_of(old(self).text_spec()).len() as usize }),
            !final(self).reversed(),
            final(self).text_spec() == old(self).text_spec(),
            final(self).marked() == old(self).marked(),
            final(self).placeholder_spec() == old(self).placeholder_spec(),
    {
        let n = self.text.as_str().as_bytes().len();
        proof {
            encode_utf8_valid_utf8(self.text@);
            is_char_boundary_start_end_of_seq(bytes_of(self.text@));
        }
        self.selected_range = ByteRange { start: 0, end: n };
        self.selection_reversed = false;
    }

    /// Replace the selected text, or the composition, or the text a UTF-16
    /// range stands for, with new text; the cursor lands after it and the
    /// composition ends. Reports the new text.
    pub fn replace_text_in_range(&mut self, range_utf16: Option<ByteRange>, new_text: &str) -> (r: SearchInputEvent)
        requires
            old(self).wf(),
        ensures
            final(self).wf(),
            ({
                let s = old(self).text_spec();
                let range = match range_utf16 {
                    Some(u) => range_from_utf16_spec(s, u),
                    None => match old(self).marked() {
                        Some(m) => m,
                        None => old(self).selection(),
                    },
                };
                &&& bytes_of(final(self).text_spec()) == spliced(bytes_of(s), range.start as int, range.end as int, bytes_of(new_text@))
                &&& final(self).selection().start == range.start + bytes_of(new_text@).len()
                &&& final(self).selection().end == final(self).selection().start
            }),
            final(self).marked() is None,
            final(self).reversed() == old(self).reversed(),
            final(self).selecting() == old(self).selecting(),
            final(self).placeholder_spec() == old(self).placeholder_spec(),
            r matches SearchInputEvent::Changed(t) && t@ == final(self).text_spec(),
    {
        let range = match range_utf16 {
            Some(u) => range_from_utf16(self.text.as_str(), u),
            None => match self.marked_range {
                Some(m) => m,
                None => self.selected_range,
            },
        };
        let new_text_len = new_text.as_bytes().len();
        let updated = splice(self.text.as_str(), range.start, range.end, new_text);
        let total = updated.as_str().as_bytes().len();
        proof {
            assert(range.start + new_text_len <= total);
        }
        let cursor = range.start + new_text_len;
        self.text = updated;
        self.selected_range = ByteRange { start: cursor, end: cursor };
        self.marked_range = None;
        SearchInputEvent::Changed(self.text.clone())
    }

    /// The byte range that a replacement acts on: the one a UTF-16 range
    /// stands for, else the composition, else the selection.
    pub open spec fn target_range(&self, range_utf16: Option<ByteRange>) -> ByteRange {
        match range_utf16 {
            Some(u) => range_from_utf16_spec(self.text_spec(), u),
            None => match self.marked() {
                Some(m) => m,
                None => self.selection(),
            },
        }
    }

    /// The text after replacing the target range with new text.
    pub open spec fn replaced_text(&self, range_utf16: Option<ByteRange>, new_text: Seq<char>) -> Seq<char> {
        let range = self.target_range(range_utf16);
        decode_utf8(spliced(bytes_of(self.text_spec()), range.start as int, range.end as int, bytes_of(new_text)))
    }

    /// The selection an input method asks for after composing: its UTF-16
    /// range read in the new text, shifted by the start of the replaced range.
    pub open spec fn composed_selection(&self, range_utf16: Option<ByteRange>, new_text: Seq<char>, sel: ByteRange) -> (int, int) {
        let start = self.target_range(range_utf16).start as int;
        let t = self.replaced_text(range_utf16, new_text);
        let r = range_from_utf16_spec(t, sel);
        (r.start + start, r.end + start)
    }

    /// Whether the selection an input method asks for lies within the new
    /// text on character boundaries, start before end.
    pub open spec fn composed_selection_fits(&self, range_utf16: Option<ByteRange>, new_text: Seq<char>, sel: Option<ByteRange>) -> bool {
        match sel {
            None => true,
            Some(u) => {
                let (a, b) = self.composed_selection(range_utf16, new_text, u);
                &&& a <= b
                &&& on_boundary(self.replaced_text(range_utf16, new_text), a)
                &&& on_boundary(self.replaced_text(range_utf16, new_text), b)
            },
        }
    }

    fn replace_range(&self, range_utf16: Option<ByteRange>) -> (r: ByteRange)
        requires
            self.wf(),
        ensures
            r == self.target_range(range_utf16),
            on_boundary(self.text_spec(), r.start as int),
            on_boundary(self.text_spec(), r.end as int),
    {
        match range_utf16 {
            Some(u) => range_from_utf16(self.text.as_str(), u),
            None => match self.marked_range {
                Some(m) => m,
                None => self.selected_range,
            },
        }
    }

    /// Whether the selection an input method asks for fits the text that
    /// composing would give.
    pub fn composition_fits(&self, range_utf16: Option<ByteRange>, new_text: &str, new_selected_utf16: Option<ByteRange>) -> (r: bool)
        requires
            self.wf(),
        ensures
            r == self.composed_selection_fits(range_utf16, new_text@, new_selected_utf16),
    {
        match new_selected_utf16 {
            None => true,
            Some(u) => {
                let range = self.replace_range(range_utf16);
                let updated = splice(self.text.as_str(), range.start, range.end, new_text);
                proof {
                    encode_utf8_decode_utf8(updated@);
                }
                let sel = range_from_utf16(updated.as_str(), u);
                let total = updated.as_str().as_bytes().len();
                if sel.start > sel.end {
                    return false;
                }
                if range.start > total || sel.end > total - range.start {
                    return false;
                }
                let a = sel.start + range.start;
                let b = sel.end + range.start;
                updated.as_str().is_char_boundary(a) && updated.as_str().is_char_boundary(b)
            },
        }
    }

    /// Replace the target text and mark the new text as the composition (none
    /// when it is empty); the selection becomes the one the input method asks
    /// for, or the cursor after the new text. Reports the new text.
    pub fn replace_and_mark_text_in_range(
        &mut self,
        range_utf16: Option<ByteRange>,
        new_text: &str,
        new_selected_utf16: Option<ByteRange>,
    ) -> (r: SearchInputEvent)
        requires
            old(self).wf(),
            old(self).composed_selection_fits(range_utf16, new_text@, new_selected_utf16),
        ensures
            final(self).wf(),
            ({
                let range = old(self).target_range(range_utf16);
                let n = bytes_of(new_text@).len();
                &&& final(self).text_spec() == old(self).replaced_text(range_utf16, new_text@)
                &&& bytes_of(final(self).text_spec()) == spliced(bytes_of(old(self).text_spec()), range.start as int, range.end as int, bytes_of(new_text@))
                &&& n > 0 ==> final(self).marked() == Some(ByteRange { start: range.start, end: (range.start + n) as usize })
                &&& n == 0 ==> final(self).marked() is None
                &&& match new_selected_utf16 {
                    Some(u) => {
                        let (a, b) = old(self).composed_selection(range_utf16, new_text@, u);
                        final(self).selection().start == a && final(self).selection().end == b
                    },
                    None => final(self).selection() == (ByteRange { start: (range.start + n) as usize, end: (range.start + n) as usize }),
                }
            }),
            final(self).reversed() == old(self).reversed(),
            final(self).selecting() == old(self).selecting(),
            final(self).placeholder_spec() == old(self).placeholder_spec(),
            r matches SearchInputEvent::Changed(t) && t@ == final(self).text_spec(),
    {
        let range = self.replace_range(range_utf16);
        let new_text_len = new_text.as_bytes().len();
        let updated = splice(self.text.as_str(), range.start, range.end, new_text);
        proof {
            encode_utf8_decode_utf8(updated@);
        }
        let total = updated.as_str().as_bytes().len();
        proof {
            assert(range.start + new_text_len <= total);
        }
        let cursor = range.start + new_text_len;
        let marked = if new_text_len > 0 {
            Some(ByteRange { start: range.start, end: cursor })
        } else {
            None
        };
        let selected = match new_selected_utf16 {
            Some(u) => {
                let sel = range_from_utf16(updated.as_str(), u);
                ByteRange { start: sel.start + range.start, end: sel.end + range.start }
            },
            None => ByteRange { start: cursor, end: cursor },
        };
        self.text = updated;
        self.marked_range = marked;
        self.selected_range = selected;
        SearchInputEvent::Changed(self.text.clone())
    }

    /// The text of a byte range.
    fn slice(&self, r: ByteRange) -> (out: &str)
        requires
            valid_range(self.text_spec(), r),
        ensures
            bytes_of(out@) == bytes_of(self.text_spec()).subrange(r.start as int, r.end as int),
    {
        let (pre, _) = self.text.as_str().split_at(r.end);
        proof {
            let b = bytes_of(self.text@);
            let x = b.subrange(0, r.end as int);
            let y = b.subrange(r.end as int, b.len() as int);
            encode_utf8_valid_utf8(self.text@);
            vstd::utf8::valid_utf8_split(b, r.end as int);
            assert(x + y =~= b);
            lemma_boundary_concat(x, y);
            assert(is_char_boundary(x, r.start as int));
            assert(bytes_of(pre@) == x);
        }
        let (_, mid) = pre.split_at(r.start);
        mid
    }

    /// The selected text, if the selection is not empty (copy).
    pub fn copy(&self) -> (r: Option<String>)
        requires
            self.wf(),
        ensures
            self.selection().start == self.selection().end ==> r is None,
            self.selection().start != self.selection().end ==> (r matches Some(t)
                && bytes_of(t@) == bytes_of(self.text_spec()).subrange(self.selection().start as int, self.selection().end as int)),
    {
        if self.selected_range.start == self.selected_range.end {
            None
        } else {
            Some(String::from_str(self.slice(self.selected_range)))
        }
    }

    /// Cut: the selected text (if any) is returned and removed.
    pub fn cut(&mut self) -> (r: Option<(String, SearchInputEvent)>)
        requires
            old(self).wf(),
        ensures
            final(self).wf(),
            old(self).selection().start == old(self).selection().end ==> r is None && *final(self) == *old(self),
            old(self).selection().start != old(self).selection().end ==> (r matches Some((t, e))
                && bytes_of(t@) == bytes_of(old(self).text_spec()).subrange(old(self).selection().start as int, old(self).selection().end as int)
                && (e matches SearchInputEvent::Changed(c) && c@ == final(self).text_spec())),
    {
        if self.selected_range.start == self.selected_range.end {
            return None;
        }
        let copied = String::from_str(self.slice(self.selected_range));
        let event = self.replace_text_in_range(None, "");
        Some((copied, event))
    }

    /// Paste text, with newlines turned into spaces, over the selection (or
    /// composition).
    pub fn paste(&mut self, text: &str) -> (r: SearchInputEvent)
        requires
            old(self).wf(),
        ensures
            final(self).wf(),
            ({
                let range = old(self).target_range(None);
                let inserted = bytes_of(single_line(text@));
                &&& bytes_of(final(self).text_spec()) == spliced(bytes_of(old(self).text_spec()), range.start as int, range.end as int, inserted)
                &&& final(self).selection().start == final(self).selection().end
                &&& final(self).selection().start == range.start + inserted.len()
            }),
            final(self).marked() is None,
            r matches SearchInputEvent::Changed(t) && t@ == final(self).text_spec(),
    {
        let line = to_single_line(text);
        self.replace_text_in_range(None, line.as_str())
    }

    /// Backspace: on empty text, go back a view; else delete the selection,
    /// or the grapheme before the cursor.
    pub fn backspace(&mut self) -> (r: SearchInputEvent)
        requires
            old(self).wf(),
        ensures
            final(self).wf(),
            old(self).text_spec().len() == 0 ==> r is Back && *final(self) == *old(self),
            old(self).text_spec().len() > 0 ==> {
                let sel = if old(self).selection().start == old(self).selection().end {
                    extended(old(self).selection(), old(self).reversed(),
                        match last_before(grapheme_starts(old(self).text_spec()), old(self).cursor_spec() as int) {
                            Some(x) => x,
                            None => 0,
                        }).0
                } else {
                    old(self).selection()
                };
                let range = match old(self).marked() {
                    Some(m) => m,
                    None => sel,
                };
                &&& bytes_of(final(self).text_spec()) == spliced(bytes_of(old(self).text_spec()), range.start as int, range.end as int, Seq::<u8>::empty())
                &&& (r matches SearchInputEvent::Changed(t) && t@ == final(self).text_spec())
            },
    {
        if self.text.as_str().unicode_len() == 0 {
            return SearchInputEvent::Back;
        }
        if self.selected_range.start == self.selected_range.end {
            let to = previous_boundary(self.text.as_str(), self.cursor_offset());
            self.select_to(to);
        }
        proof {
            reveal_strlit("");
            assert(bytes_of(""@) =~= Seq::<u8>::empty());
        }
        self.replace_text_in_range(None, "")
    }

    /// Delete: the selection, or the grapheme after the cursor.
    pub fn delete(&mut self) -> (r: SearchInputEvent)
        requires
            old(self).wf(),
        ensures
            final(self).wf(),
            ({
                let sel = if old(self).selection().start == old(self).selection().end {
                    extended(old(self).selection(), old(self).reversed(),
                        match first_after(grapheme_starts(old(self).text_spec()), old(self).cursor_spec() as int) {
                            Some(x) => x,
                            None => bytes_of(old(self).text_spec()).len() as usize,
                        }).0
                } else {
                    old(self).selection()
                };
                let range = match old(self).marked() {
                    Some(m) => m,
                    None => sel,
                };
                &&& bytes_of(final(self).text_spec()) == spliced(bytes_of(old(self).text_spec()), range.start as int, range.end as int, Seq::<u8>::empty())
                &&& (r matches SearchInputEvent::Changed(t) && t@ == final(self).text_spec())
            }),
    {
        if self.selected_range.start == self.selected_range.end {
            let to = next_boundary(self.text.as_str(), self.cursor_offset());
            self.select_to(to);
        }
        proof {
            reveal_strlit("");
            assert(bytes_of(""@) =~= Seq::<u8>::empty());
        }
        self.replace_text_in_range(None, "")
    }

    /// Move left: collapse the selection to its start, or move the cursor to
    /// the previous grapheme boundary.
    pub fn left(&mut self)
        requires
            old(self).wf(),
        ensures
            final(self).wf(),
            final(self).text_spec() == old(self).text_spec(),
            ({
                let to = if old(self).selection().start == old(self).selection().end {
                    match last_before(grapheme_starts(old(self).text_spec()), old(self).cursor_spec() as int) {
                        Some(x) => x,
                        None => 0,
                    }
                } else {
                    old(self).selection().start
                };
                final(self).selection() == (ByteRange { start: to, end: to })
            }),
    {
        if self.selected_range.start == self.selected_range.end {
            let to = previous_boundary(self.text.as_str(), self.cursor_offset());
            self.move_to(to);
        } else {
            let to = self.selected_range.start;
            self.move_to(to);
        }
    }

    /// Move right: collapse the selection to its end, or move the cursor to
    /// the next grapheme boundary.
    pub fn right(&mut self)
        requires
            old(self).wf(),
        ensures
            final(self).wf(),
            final(self).text_spec() == old(self).text_spec(),
            ({
                let to = if old(self).selection().start == old(self).selection().end {
                    match first_after(grapheme_starts(old(self).text_spec()), old(self).cursor_spec() as int) {
                        Some(x) => x,
                        None => bytes_of(old(self).text_spec()).len() as usize,
                    }
                } else {
                    old(self).selection().end
                };
                final(self).selection() == (ByteRange { start: to, end: to })
            }),
    {
        if self.selected_range.start == self.selected_range.end {
            let to = next_boundary(self.text.as_str(), self.cursor_offset());
            self.move_to(to);
        } else {
            let to = self.selected_range.end;
            self.move_to(to);
        }
    }

    /// Extend the selection to the previous grapheme boundary.
    pub fn select_left(&mut self)
        requires
            old(self).wf(),
        ensures
            final(self).wf(),
            final(self).text_spec() == old(self).text_spec(),
            (final(self).selection(), final(self).reversed()) == extended(old(self).selection(), old(self).reversed(),
                match last_before(grapheme_starts(old(self).text_spec()), old(self).cursor_spec() as int) {
                    Some(x) => x,
                    None => 0,
                }),
            anchor_of(final(self).selection(), final(self).reversed()) == anchor_of(old(self).selection(), old(self).reversed()),
    {
        let to = previous_boundary(self.text.as_str(), self.cursor_offset());
        self.select_to(to);
    }

    /// Extend the selection to the next grapheme boundary.
    pub fn select_right(&mut self)
        requires
            old(self).wf(),
        ensures
            final(self).wf(),
            final(self).text_spec() == old(self).text_spec(),
            (final(self).selection(), final(self).reversed()) == extended(old(self).selection(), old(self).reversed(),
                match first_after(grapheme_starts(old(self).text_spec()), old(self).cursor_spec() as int) {
                    Some(x) => x,
                    None => bytes_of(old(self).text_spec()).len() as usize,
                }),
            anchor_of(final(self).selection(), final(self).reversed()) == anchor_of(old(self).selection(), old(self).reversed()),
    {
        let to = next_boundary(self.text.as_str(), self.cursor_offset());
        self.select_to(to);
    }

    /// Move the cursor to the start.
    pub fn home(&mut self)
        requires
            old(self).wf(),
        ensures
            final(self).wf(),
            final(self).text_spec() == old(self).text_spec(),
            final(self).selection() == (ByteRange { start: 0, end: 0 }),
    {
        proof {
            encode_utf8_valid_utf8(self.text@);
            is_char_boundary_start_end_of_seq(bytes_of(self.text@));
        }
        self.move_to(0);
    }

    /// Move the cursor to the end.
    pub fn end(&mut self)
        requires
            old(self).wf(),
        ensures
            final(self).wf(),
            final(self).text_spec() == old(self).text_spec(),
            final(self).selection().start == bytes_of(old(self).text_spec()).len(),
            final(self).selection().end == bytes_of(old(self).text_spec()).len(),
    {
        proof {
            encode_utf8_valid_utf8(self.text@);
            is_char_boundary_start_end_of_seq(bytes_of(self.text@));
        }
        let n = self.text.as_str().as_bytes().len();
        self.move_to(n);
    }

    /// Enter: submit.
    pub fn submit(&self) -> (r: SearchInputEvent)
        ensures
            r is Submit,
    {
        SearchInputEvent::Submit
    }

    /// Mouse down at a text offset: start selecting; with shift, extend the
    /// selection there, else move the cursor there.
    pub fn on_mouse_down(&mut self, index: usize, shift: bool)
        requires
            old(self).wf(),
            on_boundary(old(self).text_spec(), index as int),
        ensures
            final(self).wf(),
            final(self).selecting(),
            final(self).text_spec() == old(self).text_spec(),
            shift ==> (final(self).selection(), final(self).reversed()) == extended(old(self).selection(), old(self).reversed(), index),
            !shift ==> final(self).selection() == (ByteRange { start: index, end: index }),
    {
        self.is_selecting = true;
        if shift {
            self.select_to(index);
        } else {
            self.move_to(index);
        }
    }

    /// Mouse up: stop selecting.
    pub fn on_mouse_up(&mut self)
        ensures
            !final(self).selecting(),
            final(self).text_spec() == old(self).text_spec(),
            final(self).selection() == old(self).selection(),
            final(self).reversed() == old(self).reversed(),
            final(self).marked() == old(self).marked(),
            final(self).placeholder_spec() == old(self).placeholder_spec(),
    {
        self.is_selecting = false;
    }

    /// Mouse move at a text offset: while selecting, extend the selection.
    pub fn on_mouse_move(&mut self, index: usize)
        requires
            old(self).wf(),
            on_boundary(old(self).text_spec(), index as int),
        ensures
            final(self).wf(),
            final(self).text_spec() == old(self).text_spec(),
            old(self).selecting() ==> (final(self).selection(), final(self).reversed()) == extended(old(self).selection(), old(self).reversed(), index),
            !old(self).selecting() ==> *final(self) == *old(self),
    {
        if self.is_selecting {
            self.select_to(index);
        }
    }

    /// The text a UTF-16 range stands for, with the UTF-16 range it actually
    /// covers.
    pub fn text_for_range(&self, range_utf16: ByteRange) -> (r: (String, ByteRange))
        requires
            self.wf(),
            range_utf16.start <= range_utf16.end,
        ensures
            ({
                let range = range_from_utf16_spec(self.text_spec(), range_utf16);
                &&& bytes_of(r.0@) == bytes_of(self.text_spec()).subrange(range.start as int, range.end as int)
                &&& r.1 == range_to_utf16_spec(self.text_spec(), range)
            }),
    {
        let range = range_from_utf16(self.text.as_str(), range_utf16);
        let actual = range_to_utf16(self.text.as_str(), range);
        (String::from_str(self.slice(range)), actual)
    }

    /// The selection in UTF-16 units, and whether it is reversed.
    pub fn selected_text_range(&self) -> (r: (ByteRange, bool))
        requires
            self.wf(),
        ensures
            r.0 == range_to_utf16_spec(self.text_spec(), self.selection()),
            r.1 == self.reversed(),
    {
        (range_to_utf16(self.text.as_str(), self.selected_range), self.selection_reversed)
    }

    /// The composition in UTF-16 units.
    pub fn marked_text_range(&self) -> (r: Option<ByteRange>)
        requires
            self.wf(),
        ensures
            match self.marked() {
                Some(m) => r == Some(range_to_utf16_spec(self.text_spec(), m)),
                None => r is None,
            },
    {
        match self.marked_range {
            Some(m) => Some(range_to_utf16(self.text.as_str(), m)),
            None => None,
        }
    }

    /// End the composition.
    pub fn unmark_text(&mut self)
        requires
            old(self).wf(),
        ensures
            final(self).wf(),
            final(self).marked() is None,
            final(self).text_spec() == old(self).text_spec(),
            final(self).selection() == old(self).selection(),
    {
        self.marked_range = None;
    }

    /// Set the text; the cursor goes to its end and the composition ends.
    pub fn set_text(&mut self, text: String)
        ensures
            final(self).wf(),
            final(self).text_spec() == text@,
            final(self).selection().start == bytes_of(text@).len(),
            final(self).selection().end == bytes_of(text@).len(),
            final(self).marked() is None,
            final(self).placeholder_spec() == old(self).placeholder_spec(),
    {
        self.text = text;
        let n = self.text.as_str().as_bytes().len();
        proof {
            encode_utf8_valid_utf8(self.text@);
            is_char_boundary_start_end_of_seq(bytes_of(self.text@));
        }
        self.selected_range = ByteRange { start: n, end: n };
        self.marked_range = None;
    }

    /// Clear the text.
    pub fn clear(&mut self)
        ensures
            final(self).wf(),
            final(self).text_spec().len() == 0,
            final(self).selection() == (ByteRange { start: 0, end: 0 }),
            final(self).marked() is None,
    {
        self.set_text(String::new());
        proof {
            assert(bytes_of(Seq::<char>::empty()) =~= Seq::<u8>::empty());
        }
    }

    /// Set the placeholder.
    pub fn set_placeholder(&mut self, placeholder: String)
        ensures
            final(self).placeholder_spec() == placeholder@,
            final(self).text_spec() == old(self).text_spec(),
            final(self).selection() == old(self).selection(),
            final(self).reversed() == old(self).reversed(),
            final(self).marked() == old(self).marked(),
            final(self).selecting() == old(self).selecting(),
    {
        self.placeholder = placeholder;
    }
}

} // verus!
