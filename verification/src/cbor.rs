//! The part of CBOR (RFC 8949) that the metadata envelope is written in:
//! definite-length heads, byte and text strings, and a way to step over any
//! definite-length item.

use vstd::prelude::*;

verus! {

/// Major type of a byte string.
pub const MAJOR_BYTES: u8 = 2;

/// Major type of a text string.
pub const MAJOR_TEXT: u8 = 3;

/// Major type of an array.
pub const MAJOR_ARRAY: u8 = 4;

/// Major type of a map.
pub const MAJOR_MAP: u8 = 5;

/// Major type of a tag.
pub const MAJOR_TAG: u8 = 6;

/// The single byte that encodes `null`.
pub const NULL_BYTE: u8 = 0xf6;

/// `256^width`, for widths up to eight bytes.
pub open spec fn radix(width: int) -> int
    decreases width,
{
    if width <= 0 {
        1
    } else {
        256 * radix(width - 1)
    }
}

/// The number that `width` bytes from `pos` on spell in big-endian order.
pub open spec fn be_value(bytes: Seq<u8>, pos: int, width: int) -> int
    decreases width,
{
    if width <= 0 {
        0
    } else {
        be_value(bytes, pos, width - 1) * 256 + bytes[pos + width - 1] as int
    }
}

/// `value` written in big-endian order on `width` bytes.
pub open spec fn be_bytes(value: int, width: int) -> Seq<u8>
    decreases width,
{
    if width <= 0 {
        Seq::empty()
    } else {
        be_bytes(value / 256, width - 1).push((value % 256) as u8)
    }
}

/// `part` stands in `bytes` from `pos` on.
pub open spec fn has_at(bytes: Seq<u8>, pos: int, part: Seq<u8>) -> bool {
    &&& 0 <= pos
    &&& pos + part.len() <= bytes.len()
    &&& forall|i: int| 0 <= i < part.len() ==> bytes[pos + i] == #[trigger] part[i]
}

/// How many argument bytes follow an initial byte with this additional
/// information, for the values 24 to 27.
pub open spec fn arg_width(info: int) -> int {
    if info == 24 {
        1
    } else if info == 25 {
        2
    } else if info == 26 {
        4
    } else {
        8
    }
}

/// The head of a data item: its major type, its argument and where the head ends.
pub struct Head {
    pub major: u8,
    pub arg: u64,
    pub next: usize,
}

/// The head that starts at `pos`, if a whole definite-length head stands
/// there: major type, argument, and the position behind the head. Additional
/// information 28 to 31 (reserved values, indefinite lengths, the break
/// code) gives `None`.
pub open spec fn parse_head(bytes: Seq<u8>, pos: int) -> Option<(u8, u64, int)> {
    if 0 <= pos < bytes.len() {
        let first = bytes[pos];
        let major = first / 32;
        let info = first % 32;
        if info < 24 {
            Some((major, info as u64, pos + 1))
        } else if info <= 27 {
            let width = arg_width(info as int);
            if pos + 1 + width <= bytes.len() {
                Some((major, be_value(bytes, pos + 1, width) as u64, pos + 1 + width))
            } else {
                None
            }
        } else {
            None
        }
    } else {
        None
    }
}

/// The shortest head for this major type and argument.
pub open spec fn head_bytes(major: u8, arg: u64) -> Seq<u8> {
    if arg < 24 {
        seq![(major * 32 + arg) as u8]
    } else if arg < 0x100 {
        seq![(major * 32 + 24) as u8] + be_bytes(arg as int, 1)
    } else if arg < 0x1_0000 {
        seq![(major * 32 + 25) as u8] + be_bytes(arg as int, 2)
    } else if arg < 0x1_0000_0000 {
        seq![(major * 32 + 26) as u8] + be_bytes(arg as int, 4)
    } else {
        seq![(major * 32 + 27) as u8] + be_bytes(arg as int, 8)
    }
}

/// A byte or text string item: the head with the payload's length, then the
/// payload.
pub open spec fn string_item(major: u8, payload: Seq<u8>) -> Seq<u8> {
    head_bytes(major, payload.len() as u64) + payload
}

/// The payload of the string of the given major type whose head starts at
/// `pos`: where it starts and where it ends.
pub open spec fn parse_string(bytes: Seq<u8>, pos: int, major: u8) -> Option<(int, int)> {
    match parse_head(bytes, pos) {
        Some((m, arg, next)) => if m == major && arg <= bytes.len() - next {
            Some((next, next + arg))
        } else {
            None
        },
        None => None,
    }
}

/// The position behind `count` well-formed definite-length data items that
/// start at `pos`, nested items included; `None` where the bytes end early or
/// hold a head that `parse_head` does not read.
pub open spec fn skip_items(bytes: Seq<u8>, pos: int, count: int) -> Option<int>
    decreases bytes.len() - pos,
{
    if count <= 0 {
        Some(pos)
    } else {
        match parse_head(bytes, pos) {
            None => None,
            Some((major, arg, next)) => if major == MAJOR_BYTES || major == MAJOR_TEXT {
                if arg <= bytes.len() - next {
                    skip_items(bytes, next + arg, count - 1)
                } else {
                    None
                }
            } else if major == MAJOR_ARRAY {
                skip_items(bytes, next, count - 1 + arg)
            } else if major == MAJOR_MAP {
                skip_items(bytes, next, count - 1 + 2 * arg)
            } else if major == MAJOR_TAG {
                skip_items(bytes, next, count)
            } else {
                skip_items(bytes, next, count - 1)
            },
        }
    }
}

/// The powers of 256 up to the eighth.
pub proof fn lemma_radix_values()
    ensures
        radix(0) == 1,
        radix(1) == 0x100,
        radix(2) == 0x1_0000,
        radix(3) == 0x100_0000,
        radix(4) == 0x1_0000_0000,
        radix(5) == 0x100_0000_0000,
        radix(6) == 0x1_0000_0000_0000,
        radix(7) == 0x100_0000_0000_0000,
        radix(8) == 0x1_0000_0000_0000_0000,
{
    reveal_with_fuel(radix, 10);
}

/// A big-endian number of `width` bytes is below `256^width`.
pub proof fn lemma_be_value_bound(bytes: Seq<u8>, pos: int, width: int)
    requires
        0 <= width,
    ensures
        0 <= be_value(bytes, pos, width) < radix(width),
    decreases width,
{
    if width > 0 {
        lemma_be_value_bound(bytes, pos, width - 1);
    }
}

/// A number written on `width` bytes takes `width` bytes.
pub proof fn lemma_be_bytes_len(value: int, width: int)
    requires
        0 <= width,
    ensures
        be_bytes(value, width).len() == width,
    decreases width,
{
    if width > 0 {
        lemma_be_bytes_len(value / 256, width - 1);
    }
}

/// Reading back what `be_bytes` wrote gives the number written.
pub proof fn lemma_be_round_trip(bytes: Seq<u8>, pos: int, value: int, width: int)
    requires
        0 <= width,
        0 <= value < radix(width),
        has_at(bytes, pos, be_bytes(value, width)),
    ensures
        be_value(bytes, pos, width) == value,
    decreases width,
{
    if width > 0 {
        let shorter = be_bytes(value / 256, width - 1);
        let whole = be_bytes(value, width);
        lemma_be_bytes_len(value / 256, width - 1);
        lemma_be_bytes_len(value, width);
        assert(whole == shorter.push((value % 256) as u8));
        assert(has_at(bytes, pos, shorter)) by {
            assert forall|i: int| 0 <= i < shorter.len() implies bytes[pos + i]
                == #[trigger] shorter[i] by {
                assert(whole[i] == shorter[i]);
            }
        }
        lemma_be_round_trip(bytes, pos, value / 256, width - 1);
        assert(bytes[pos + width - 1] == whole[width - 1]);
    }
}

/// Splitting a part in two: both halves stand where the whole stood.
pub proof fn lemma_has_at_split(bytes: Seq<u8>, pos: int, a: Seq<u8>, b: Seq<u8>)
    requires
        has_at(bytes, pos, a + b),
    ensures
        has_at(bytes, pos, a),
        has_at(bytes, pos + a.len(), b),
{
    let whole = a + b;
    assert forall|i: int| 0 <= i < a.len() implies bytes[pos + i] == #[trigger] a[i] by {
        assert(whole[i] == a[i]);
    }
    assert forall|i: int| 0 <= i < b.len() implies bytes[pos + a.len() + i] == #[trigger] b[i] by {
        assert(whole[a.len() + i] == b[i]);
    }
}

/// A part that stands in `bytes` is the matching range of `bytes`.
pub proof fn lemma_has_at_subrange(bytes: Seq<u8>, pos: int, part: Seq<u8>)
    requires
        has_at(bytes, pos, part),
    ensures
        bytes.subrange(pos, pos + part.len()) == part,
{
    assert(bytes.subrange(pos, pos + part.len()) =~= part);
}

/// A head takes between one and nine bytes.
pub proof fn lemma_head_bytes_len(major: u8, arg: u64)
    ensures
        1 <= head_bytes(major, arg).len() <= 9,
{
    lemma_be_bytes_len(arg as int, 1);
    lemma_be_bytes_len(arg as int, 2);
    lemma_be_bytes_len(arg as int, 4);
    lemma_be_bytes_len(arg as int, 8);
}

/// The head that `head_bytes` wrote is read back as it was written.
pub proof fn lemma_head_round_trip(bytes: Seq<u8>, pos: int, major: u8, arg: u64)
    requires
        major < 8,
        has_at(bytes, pos, head_bytes(major, arg)),
    ensures
        parse_head(bytes, pos) == Some((major, arg, pos + head_bytes(major, arg).len())),
{
    let head = head_bytes(major, arg);
    lemma_head_bytes_len(major, arg);
    lemma_radix_values();
    assert(bytes[pos] == head[0]);
    if arg < 24 {
    } else {
        let width: int = if arg < 0x100 {
            1
        } else if arg < 0x1_0000 {
            2
        } else if arg < 0x1_0000_0000 {
            4
        } else {
            8
        };
        let info: int = if arg < 0x100 {
            24
        } else if arg < 0x1_0000 {
            25
        } else if arg < 0x1_0000_0000 {
            26
        } else {
            27
        };
        let first = seq![(major * 32 + info) as u8];
        assert(head == first + be_bytes(arg as int, width));
        lemma_be_bytes_len(arg as int, width);
        lemma_has_at_split(bytes, pos, first, be_bytes(arg as int, width));
        lemma_be_round_trip(bytes, pos + 1, arg as int, width);
        assert(head[0] == (major * 32 + info) as u8);
    }
}

/// The string item that `string_item` wrote is read back with its payload.
pub proof fn lemma_string_round_trip(bytes: Seq<u8>, pos: int, major: u8, payload: Seq<u8>)
    requires
        major < 8,
        payload.len() <= u64::MAX,
        has_at(bytes, pos, string_item(major, payload)),
    ensures
        parse_string(bytes, pos, major) matches Some((start, end)) && start == pos + head_bytes(
            major,
            payload.len() as u64,
        ).len() && end == pos + string_item(major, payload).len() && bytes.subrange(start, end)
            == payload,
{
    let head = head_bytes(major, payload.len() as u64);
    lemma_has_at_split(bytes, pos, head, payload);
    lemma_head_round_trip(bytes, pos, major, payload.len() as u64);
    lemma_has_at_subrange(bytes, pos + head.len(), payload);
}

/// `count` items take at least `count` bytes.
pub proof fn lemma_skip_bound(bytes: Seq<u8>, pos: int, count: int)
    requires
        0 <= count,
        0 <= pos <= bytes.len(),
        skip_items(bytes, pos, count).is_some(),
    ensures
        pos + count <= skip_items(bytes, pos, count).unwrap() <= bytes.len(),
    decreases bytes.len() - pos,
{
    if count > 0 {
        let (major, arg, next) = parse_head(bytes, pos).unwrap();
        if major == MAJOR_BYTES || major == MAJOR_TEXT {
            lemma_skip_bound(bytes, next + arg, count - 1);
        } else if major == MAJOR_ARRAY {
            lemma_skip_bound(bytes, next, count - 1 + arg);
        } else if major == MAJOR_MAP {
            lemma_skip_bound(bytes, next, count - 1 + 2 * arg);
        } else if major == MAJOR_TAG {
            lemma_skip_bound(bytes, next, count);
        } else {
            lemma_skip_bound(bytes, next, count - 1);
        }
    }
}

/// Reads the head that starts at `pos`.
pub fn read_head(bytes: &[u8], pos: usize) -> (r: Option<Head>)
    ensures
        match parse_head(bytes@, pos as int) {
            Some((major, arg, next)) => r matches Some(h) && h.major == major && h.arg == arg
                && h.next == next,
            None => r.is_none(),
        },
{
    if pos >= bytes.len() {
        return None;
    }
    let first: u8 = bytes[pos];
    let major: u8 = first / 32;
    let info: u8 = first % 32;
    if info < 24 {
        return Some(Head { major, arg: info as u64, next: pos + 1 });
    }
    if info > 27 {
        return None;
    }
    let width: usize = if info == 24 {
        1
    } else if info == 25 {
        2
    } else if info == 26 {
        4
    } else {
        8
    };
    if bytes.len() - pos - 1 < width {
        return None;
    }
    let mut value: u64 = 0;
    let mut i: usize = 0;
    proof {
        lemma_radix_values();
    }
    while i < width
        invariant
            i <= width <= 8,
            pos + 1 + width <= bytes@.len() <= usize::MAX,
            value == be_value(bytes@, pos + 1, i as int),
            value < radix(i as int),
        decreases width - i,
    {
        proof {
            lemma_radix_values();
            lemma_be_value_bound(bytes@, pos + 1, i + 1);
            assert(radix(i + 1) == 256 * radix(i as int));
            assert(radix(i + 1) <= radix(8)) by {
                lemma_radix_values();
            }
        }
        value = value * 256 + bytes[pos + 1 + i] as u64;
        i += 1;
    }
    Some(Head { major, arg: value, next: pos + 1 + width })
}

/// Appends `value` in big-endian order on `width` bytes.
fn push_be(out: &mut Vec<u8>, value: u64, width: usize)
    ensures
        final(out)@ == old(out)@ + be_bytes(value as int, width as int),
    decreases width,
{
    if width == 0 {
        assert(old(out)@ + be_bytes(value as int, 0) =~= old(out)@);
        return ;
    }
    push_be(out, value / 256, width - 1);
    out.push((value % 256) as u8);
    assert(out@ =~= old(out)@ + be_bytes(value as int, width as int));
}

/// Appends the shortest head for this major type and argument.
pub fn push_head(out: &mut Vec<u8>, major: u8, arg: u64)
    requires
        major < 8,
    ensures
        final(out)@ == old(out)@ + head_bytes(major, arg),
{
    if arg < 24 {
        out.push(major * 32 + arg as u8);
        assert(out@ =~= old(out)@ + head_bytes(major, arg));
    } else if arg < 0x100 {
        out.push(major * 32 + 24);
        push_be(out, arg, 1);
        assert(out@ =~= old(out)@ + head_bytes(major, arg));
    } else if arg < 0x1_0000 {
        out.push(major * 32 + 25);
        push_be(out, arg, 2);
        assert(out@ =~= old(out)@ + head_bytes(major, arg));
    } else if arg < 0x1_0000_0000 {
        out.push(major * 32 + 26);
        push_be(out, arg, 4);
        assert(out@ =~= old(out)@ + head_bytes(major, arg));
    } else {
        out.push(major * 32 + 27);
        push_be(out, arg, 8);
        assert(out@ =~= old(out)@ + head_bytes(major, arg));
    }
}

/// Appends a byte or text string item with this payload.
pub fn push_string(out: &mut Vec<u8>, major: u8, payload: &[u8])
    requires
        major < 8,
    ensures
        final(out)@ == old(out)@ + string_item(major, payload@),
{
    push_head(out, major, payload.len() as u64);
    let ghost mid = out@;
    let mut i: usize = 0;
    while i < payload.len()
        invariant
            i <= payload@.len(),
            out@ == mid + payload@.take(i as int),
        decreases payload@.len() - i,
    {
        out.push(payload[i]);
        i += 1;
        assert(out@ =~= mid + payload@.take(i as int));
    }
    assert(payload@.take(payload@.len() as int) =~= payload@);
    assert(out@ =~= old(out)@ + string_item(major, payload@));
}

/// Reads the string item of the given major type whose head starts at `pos`,
/// and gives the bounds of its payload.
pub fn read_string(bytes: &[u8], pos: usize, major: u8) -> (r: Option<(usize, usize)>)
    ensures
        match parse_string(bytes@, pos as int, major) {
            Some((start, end)) => r matches Some((s, e)) && s == start && e == end && pos < start
                <= end <= bytes@.len(),
            None => r.is_none(),
        },
{
    match read_head(bytes, pos) {
        None => None,
        Some(head) => {
            if head.major == major && head.arg <= (bytes.len() - head.next) as u64 {
                Some((head.next, head.next + head.arg as usize))
            } else {
                None
            }
        },
    }
}

/// Steps over the one data item that starts at `pos`, whatever it holds.
pub fn skip_item(bytes: &[u8], pos: usize) -> (r: Option<usize>)
    requires
        pos <= bytes@.len(),
    ensures
        match skip_items(bytes@, pos as int, 1) {
            Some(end) => r matches Some(e) && e == end && pos < end <= bytes@.len(),
            None => r.is_none(),
        },
{
    let mut cur: usize = pos;
    let mut count: usize = 1;
    while count > 0
        invariant
            pos <= cur <= bytes@.len(),
            cur + count <= bytes@.len() + 1,
            count >= 1 || cur > pos,
            skip_items(bytes@, pos as int, 1) == skip_items(bytes@, cur as int, count as int),
        decreases bytes@.len() - cur,
    {
        let head = match read_head(bytes, cur) {
            None => { return None; },
            Some(head) => head,
        };
        let left: usize = bytes.len() - head.next;
        if head.major == MAJOR_BYTES || head.major == MAJOR_TEXT {
            if head.arg > left as u64 {
                return None;
            }
            proof {
                if skip_items(bytes@, head.next + head.arg, count - 1).is_some() {
                    lemma_skip_bound(bytes@, head.next + head.arg, count - 1);
                }
            }
            if count - 1 > left - head.arg as usize {
                return None;
            }
            cur = head.next + head.arg as usize;
            count = count - 1;
        } else if head.major == MAJOR_ARRAY {
            proof {
                if skip_items(bytes@, head.next as int, count - 1 + head.arg).is_some() {
                    lemma_skip_bound(bytes@, head.next as int, count - 1 + head.arg);
                }
            }
            if head.arg > left as u64 || count - 1 > left - head.arg as usize {
                return None;
            }
            cur = head.next;
            count = count - 1 + head.arg as usize;
        } else if head.major == MAJOR_MAP {
            proof {
                if skip_items(bytes@, head.next as int, count - 1 + 2 * head.arg).is_some() {
                    lemma_skip_bound(bytes@, head.next as int, count - 1 + 2 * head.arg);
                }
            }
            if head.arg > (left / 2) as u64 || count - 1 > left - 2 * (head.arg as usize) {
                return None;
            }
            cur = head.next;
            count = count - 1 + 2 * (head.arg as usize);
        } else if head.major == MAJOR_TAG {
            proof {
                if skip_items(bytes@, head.next as int, count as int).is_some() {
                    lemma_skip_bound(bytes@, head.next as int, count as int);
                }
            }
            if count > left {
                return None;
            }
            cur = head.next;
        } else {
            proof {
                if skip_items(bytes@, head.next as int, count - 1).is_some() {
                    lemma_skip_bound(bytes@, head.next as int, count - 1);
                }
            }
            if count - 1 > left {
                return None;
            }
            cur = head.next;
            count = count - 1;
        }
    }
    Some(cur)
}

} // verus!
