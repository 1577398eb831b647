//! What a reader makes of the first part of some bytes, it makes of the
//! whole: a reader looks at nothing beyond the place where it stops. So of
//! all the buffers that bytes can be cut down to, at most one holds an
//! envelope, and a truncated envelope is never read as one.

use vstd::prelude::*;
use vstd::utf8::{decode_utf8, valid_utf8};
use crate::cbor::{
    be_value, parse_head, parse_string, skip_items, MAJOR_ARRAY, MAJOR_BYTES, MAJOR_MAP, MAJOR_TAG,
    MAJOR_TEXT,
};
use crate::metadata::{
    parse_entries, parse_entry, parse_envelope, parse_field, parse_fields, parse_table, parse_url,
    Partial,
};

verus! {

/// `short` is the first part of `long`.
pub open spec fn is_prefix(short: Seq<u8>, long: Seq<u8>) -> bool {
    &&& short.len() <= long.len()
    &&& forall|i: int| 0 <= i < short.len() ==> short[i] == long[i]
}

proof fn lemma_be_value_prefix(short: Seq<u8>, long: Seq<u8>, pos: int, width: int)
    requires
        is_prefix(short, long),
        0 <= pos,
        0 <= width,
        pos + width <= short.len(),
    ensures
        be_value(short, pos, width) == be_value(long, pos, width),
    decreases width,
{
    if width > 0 {
        lemma_be_value_prefix(short, long, pos, width - 1);
    }
}

proof fn lemma_head_prefix(short: Seq<u8>, long: Seq<u8>, pos: int)
    requires
        is_prefix(short, long),
        parse_head(short, pos).is_some(),
    ensures
        parse_head(long, pos) == parse_head(short, pos),
        pos < parse_head(short, pos).unwrap().2 <= short.len(),
{
    let next = parse_head(short, pos).unwrap().2;
    lemma_be_value_prefix(short, long, pos + 1, next - pos - 1);
}

proof fn lemma_range_prefix(short: Seq<u8>, long: Seq<u8>, start: int, end: int)
    requires
        is_prefix(short, long),
        0 <= start <= end <= short.len(),
    ensures
        short.subrange(start, end) == long.subrange(start, end),
{
    assert(short.subrange(start, end) =~= long.subrange(start, end));
}

proof fn lemma_string_prefix(short: Seq<u8>, long: Seq<u8>, pos: int, major: u8)
    requires
        is_prefix(short, long),
        parse_string(short, pos, major).is_some(),
    ensures
        parse_string(long, pos, major) == parse_string(short, pos, major),
        ({
            let (start, end) = parse_string(short, pos, major).unwrap();
            pos < start <= end <= short.len() && short.subrange(start, end) == long.subrange(
                start,
                end,
            )
        }),
{
    lemma_head_prefix(short, long, pos);
    let (start, end) = parse_string(short, pos, major).unwrap();
    lemma_range_prefix(short, long, start, end);
}

proof fn lemma_skip_prefix(short: Seq<u8>, long: Seq<u8>, pos: int, count: int)
    requires
        is_prefix(short, long),
        0 <= pos <= short.len(),
        skip_items(short, pos, count).is_some(),
    ensures
        skip_items(long, pos, count) == skip_items(short, pos, count),
        pos <= skip_items(short, pos, count).unwrap() <= short.len(),
    decreases short.len() - pos,
{
    if count > 0 {
        lemma_head_prefix(short, long, pos);
        let (major, arg, next) = parse_head(short, pos).unwrap();
        if major == MAJOR_BYTES || major == MAJOR_TEXT {
            lemma_skip_prefix(short, long, next + arg, count - 1);
        } else if major == MAJOR_ARRAY {
            lemma_skip_prefix(short, long, next, count - 1 + arg);
        } else if major == MAJOR_MAP {
            lemma_skip_prefix(short, long, next, count - 1 + 2 * arg);
        } else if major == MAJOR_TAG {
            lemma_skip_prefix(short, long, next, count);
        } else {
            lemma_skip_prefix(short, long, next, count - 1);
        }
    }
}

proof fn lemma_entry_prefix(short: Seq<u8>, long: Seq<u8>, pos: int, width: int)
    requires
        is_prefix(short, long),
        parse_entry(short, pos, width).is_some(),
    ensures
        parse_entry(long, pos, width) == parse_entry(short, pos, width),
        pos < parse_entry(short, pos, width).unwrap().1 <= short.len(),
{
    lemma_string_prefix(short, long, pos, MAJOR_TEXT);
    let (_, name_end) = parse_string(short, pos, MAJOR_TEXT).unwrap();
    lemma_string_prefix(short, long, name_end, MAJOR_BYTES);
}

proof fn lemma_entries_prefix(short: Seq<u8>, long: Seq<u8>, pos: int, count: int, width: int)
    requires
        is_prefix(short, long),
        0 <= pos <= short.len(),
        parse_entries(short, pos, count, width).is_some(),
    ensures
        parse_entries(long, pos, count, width) == parse_entries(short, pos, count, width),
        pos <= parse_entries(short, pos, count, width).unwrap().1 <= short.len(),
    decreases count,
{
    if count > 0 {
        lemma_entries_prefix(short, long, pos, count - 1, width);
        let (_, end) = parse_entries(short, pos, count - 1, width).unwrap();
        lemma_entry_prefix(short, long, end, width);
    }
}

proof fn lemma_table_prefix(short: Seq<u8>, long: Seq<u8>, pos: int, width: int)
    requires
        is_prefix(short, long),
        parse_table(short, pos, width).is_some(),
    ensures
        parse_table(long, pos, width) == parse_table(short, pos, width),
        pos < parse_table(short, pos, width).unwrap().1 <= short.len(),
{
    lemma_head_prefix(short, long, pos);
    let (_, count, next) = parse_head(short, pos).unwrap();
    lemma_entries_prefix(short, long, next, count as int, width);
}

proof fn lemma_url_prefix(short: Seq<u8>, long: Seq<u8>, pos: int)
    requires
        is_prefix(short, long),
        parse_url(short, pos).is_some(),
    ensures
        parse_url(long, pos) == parse_url(short, pos),
        pos < parse_url(short, pos).unwrap().1 <= short.len(),
{
    if 0 <= pos < short.len() && short[pos] == crate::cbor::NULL_BYTE {
    } else {
        lemma_string_prefix(short, long, pos, MAJOR_TEXT);
        lemma_head_prefix(short, long, pos);
    }
}

proof fn lemma_field_prefix(short: Seq<u8>, long: Seq<u8>, pos: int, acc: Partial)
    requires
        is_prefix(short, long),
        parse_field(short, pos, acc).is_some(),
    ensures
        parse_field(long, pos, acc) == parse_field(short, pos, acc),
        pos < parse_field(short, pos, acc).unwrap().1 <= short.len(),
{
    lemma_string_prefix(short, long, pos, MAJOR_TEXT);
    let (key_start, key_end) = parse_string(short, pos, MAJOR_TEXT).unwrap();
    let name = short.subrange(key_start, key_end);
    if name == crate::metadata::key_timestamp() {
        lemma_string_prefix(short, long, key_end, MAJOR_TEXT);
    } else if name == crate::metadata::key_network_keys() {
        lemma_table_prefix(short, long, key_end, 32);
    } else if name == crate::metadata::key_tor_keys() {
        lemma_table_prefix(short, long, key_end, 64);
    } else if name == crate::metadata::key_marketplace_url() {
        lemma_url_prefix(short, long, key_end);
    } else {
        lemma_skip_prefix(short, long, key_end, 1);
        crate::cbor::lemma_skip_bound(short, key_end, 1);
    }
}

proof fn lemma_fields_prefix(short: Seq<u8>, long: Seq<u8>, pos: int, count: int)
    requires
        is_prefix(short, long),
        0 <= pos <= short.len(),
        parse_fields(short, pos, count).is_some(),
    ensures
        parse_fields(long, pos, count) == parse_fields(short, pos, count),
        pos <= parse_fields(short, pos, count).unwrap().1 <= short.len(),
    decreases count,
{
    if count > 0 {
        lemma_fields_prefix(short, long, pos, count - 1);
        let (acc, end) = parse_fields(short, pos, count - 1).unwrap();
        lemma_field_prefix(short, long, end, acc);
    }
}

/// Bytes that hold an envelope hold none once they are cut short: wherever
/// an envelope is truncated, reading what is left gives no envelope.
pub proof fn lemma_truncated_is_rejected(bytes: Seq<u8>, cut: int)
    requires
        parse_envelope(bytes).is_some(),
        0 <= cut < bytes.len(),
    ensures
        parse_envelope(bytes.subrange(0, cut)).is_none(),
{
    let short = bytes.subrange(0, cut);
    if parse_envelope(short).is_some() {
        assert(is_prefix(short, bytes));
        lemma_head_prefix(short, bytes, 0);
        let (_, count, next) = parse_head(short, 0).unwrap();
        lemma_fields_prefix(short, bytes, next, count as int);
    }
}

/// Bytes that hold an envelope hold none once bytes are put behind them.
pub proof fn lemma_extended_is_rejected(bytes: Seq<u8>, more: Seq<u8>)
    requires
        parse_envelope(bytes).is_some(),
        more.len() > 0,
    ensures
        parse_envelope(bytes + more).is_none(),
{
    let long = bytes + more;
    assert(is_prefix(bytes, long));
    lemma_head_prefix(bytes, long, 0);
    let (_, count, next) = parse_head(bytes, 0).unwrap();
    lemma_fields_prefix(bytes, long, next, count as int);
}

} // verus!
