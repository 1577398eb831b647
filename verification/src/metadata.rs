//! The metadata envelope of a backup: what it holds, its bytes, and how the
//! bytes are read back.
//!
//! The envelope is a CBOR map with text keys. `timestamp` holds an RFC 3339
//! text, `network-keys` and `tor-keys` hold maps from an interface's name to a
//! byte string of 32 and of 64 bytes, and `marketplace-url` holds a text or
//! `null`. A reader takes the fields in any order, steps over fields that it
//! does not know, and fills in the fields that are absent: no keys, no URL.
//! Only the timestamp has to be there.

use vstd::prelude::*;
use vstd::slice::slice_subrange;
use vstd::array::array_as_slice;
use vstd::utf8::{valid_utf8, decode_utf8, encode_utf8, encode_utf8_valid_utf8, encode_utf8_decode_utf8};
use crate::cbor::{
    has_at, head_bytes, lemma_has_at_split, lemma_head_bytes_len, lemma_head_round_trip,
    lemma_string_round_trip, parse_head, parse_string, push_head, push_string, read_head,
    read_string, skip_item, skip_items, string_item, MAJOR_BYTES, MAJOR_MAP, MAJOR_TEXT,
    NULL_BYTE,
};
use crate::error::{Error, ErrorKind};
use crate::text::bytes_equal;
use crate::timestamp::{
    lemma_timestamp_round_trip, parse_timestamp, push_timestamp, read_timestamp, timestamp_text,
    Timestamp,
};

verus! {

/// Whether `url::Url::parse` takes the text for an absolute URL.
pub uninterp spec fn url_well_formed(text: Seq<char>) -> bool;

/// `url::Url::parse`, asked only whether it succeeds: true exactly for the
/// texts that it parses as an absolute URL.
#[verifier::external_body]
fn url_parses(text: &str) -> (ok: bool)
    ensures
        ok == url_well_formed(text@),
{
    url::Url::parse(text).is_ok()
}

/// `std::str::from_utf8`: the text that the bytes spell in UTF-8, and `None`
/// for bytes that are not UTF-8.
#[verifier::external_body]
fn utf8_text(bytes: &[u8]) -> (r: Option<&str>)
    ensures
        r.is_some() == valid_utf8(bytes@),
        r matches Some(text) ==> text@ == decode_utf8(bytes@),
{
    std::str::from_utf8(bytes).ok()
}

/// The key of one network interface: `N` bytes of key material. It has no
/// `Debug`, so that no log shows a key.
pub struct KeyEntry<const N: usize> {
    pub interface: String,
    pub key: [u8; N],
}

/// What a backup's envelope holds.
pub struct BackupMetadata {
    /// When the package's own procedure reported that the backup was made.
    pub timestamp: Timestamp,
    /// The 32-byte key of each interface.
    pub network_keys: Vec<KeyEntry<32>>,
    /// The 64-byte onion service key of each interface. Written for older
    /// readers; nothing reads it as the source of a key.
    pub tor_keys: Vec<KeyEntry<64>>,
    /// The marketplace that the package was installed from.
    pub marketplace_url: Option<String>,
}

/// An envelope as plain values: each table is the sequence of its entries, an
/// interface's name with its key material.
pub struct MetadataView {
    pub timestamp: Timestamp,
    pub network_keys: Seq<(Seq<char>, Seq<u8>)>,
    pub tor_keys: Seq<(Seq<char>, Seq<u8>)>,
    pub marketplace_url: Option<Seq<char>>,
}

/// The entries of a table as plain values.
pub open spec fn entries_view<const N: usize>(entries: Seq<KeyEntry<N>>) -> Seq<
    (Seq<char>, Seq<u8>),
> {
    Seq::new(entries.len(), |i: int| (entries[i].interface@, entries[i].key@))
}

/// No interface is named twice.
pub open spec fn distinct_ids(entries: Seq<(Seq<char>, Seq<u8>)>) -> bool {
    forall|i: int, j: int|
        0 <= i < j < entries.len() ==> (#[trigger] entries[i]).0 != (#[trigger] entries[j]).0
}

/// The table's size and the size of each name can be written in a head.
pub open spec fn table_fits(entries: Seq<(Seq<char>, Seq<u8>)>) -> bool {
    &&& entries.len() <= u64::MAX
    &&& forall|i: int|
        0 <= i < entries.len() ==> encode_utf8((#[trigger] entries[i]).0).len() <= u64::MAX
}

/// Every key has `width` bytes.
pub open spec fn keys_of_width(entries: Seq<(Seq<char>, Seq<u8>)>, width: int) -> bool {
    forall|i: int| 0 <= i < entries.len() ==> (#[trigger] entries[i]).1.len() == width
}

impl MetadataView {
    /// The envelope names an instant, no table names an interface twice, the
    /// keys have 32 and 64 bytes, and the URL, if there is one, is an absolute
    /// URL.
    pub open spec fn valid(&self) -> bool {
        &&& self.timestamp.valid()
        &&& distinct_ids(self.network_keys)
        &&& keys_of_width(self.network_keys, 32)
        &&& distinct_ids(self.tor_keys)
        &&& keys_of_width(self.tor_keys, 64)
        &&& self.marketplace_url matches Some(url) ==> url_well_formed(url)
    }

    /// Every length in the envelope can be written in a head. This holds of
    /// every envelope in memory.
    pub open spec fn fits(&self) -> bool {
        &&& table_fits(self.network_keys)
        &&& table_fits(self.tor_keys)
        &&& self.marketplace_url matches Some(url) ==> encode_utf8(url).len() <= u64::MAX
    }
}

impl View for BackupMetadata {
    type V = MetadataView;

    open spec fn view(&self) -> MetadataView {
        MetadataView {
            timestamp: self.timestamp,
            network_keys: entries_view(self.network_keys@),
            tor_keys: entries_view(self.tor_keys@),
            marketplace_url: match self.marketplace_url {
                Some(url) => Some(url@),
                None => None,
            },
        }
    }
}

/// The key of the timestamp: the text `timestamp`.
pub const KEY_TIMESTAMP: [u8; 9] = [116, 105, 109, 101, 115, 116, 97, 109, 112];

/// The key of the 32-byte keys: the text `network-keys`.
pub const KEY_NETWORK_KEYS: [u8; 12] = [110, 101, 116, 119, 111, 114, 107, 45, 107, 101, 121, 115];

/// The key of the onion service keys: the text `tor-keys`.
pub const KEY_TOR_KEYS: [u8; 8] = [116, 111, 114, 45, 107, 101, 121, 115];

/// The key of the marketplace URL: the text `marketplace-url`.
pub const KEY_MARKETPLACE_URL: [u8; 15] = [
    109,
    97,
    114,
    107,
    101,
    116,
    112,
    108,
    97,
    99,
    101,
    45,
    117,
    114,
    108,
];

/// The bytes of the text `timestamp`.
pub open spec fn key_timestamp() -> Seq<u8> {
    seq![116u8, 105, 109, 101, 115, 116, 97, 109, 112]
}

/// The bytes of the text `network-keys`.
pub open spec fn key_network_keys() -> Seq<u8> {
    seq![110u8, 101, 116, 119, 111, 114, 107, 45, 107, 101, 121, 115]
}

/// The bytes of the text `tor-keys`.
pub open spec fn key_tor_keys() -> Seq<u8> {
    seq![116u8, 111, 114, 45, 107, 101, 121, 115]
}

/// The bytes of the text `marketplace-url`.
pub open spec fn key_marketplace_url() -> Seq<u8> {
    seq![109u8, 97, 114, 107, 101, 116, 112, 108, 97, 99, 101, 45, 117, 114, 108]
}

/// The keys hold the bytes of their texts.
pub proof fn lemma_key_texts()
    ensures
        KEY_TIMESTAMP@ == key_timestamp(),
        KEY_NETWORK_KEYS@ == key_network_keys(),
        KEY_TOR_KEYS@ == key_tor_keys(),
        KEY_MARKETPLACE_URL@ == key_marketplace_url(),
{
    assert(KEY_TIMESTAMP@ =~= key_timestamp());
    assert(KEY_NETWORK_KEYS@ =~= key_network_keys());
    assert(KEY_TOR_KEYS@ =~= key_tor_keys());
    assert(KEY_MARKETPLACE_URL@ =~= key_marketplace_url());
}

/// One entry of a table: the interface's name as a text, the key as a byte
/// string.
pub open spec fn entry_bytes(entry: (Seq<char>, Seq<u8>)) -> Seq<u8> {
    string_item(MAJOR_TEXT, encode_utf8(entry.0)) + string_item(MAJOR_BYTES, entry.1)
}

/// The entries of a table, one after the other.
pub open spec fn entries_bytes(entries: Seq<(Seq<char>, Seq<u8>)>) -> Seq<u8>
    decreases entries.len(),
{
    if entries.len() == 0 {
        Seq::empty()
    } else {
        entries_bytes(entries.drop_last()) + entry_bytes(entries.last())
    }
}

/// A table: a map's head with the number of entries, then the entries.
pub open spec fn table_bytes(entries: Seq<(Seq<char>, Seq<u8>)>) -> Seq<u8> {
    head_bytes(MAJOR_MAP, entries.len() as u64) + entries_bytes(entries)
}

/// The marketplace URL: a text, or `null`.
pub open spec fn url_bytes(url: Option<Seq<char>>) -> Seq<u8> {
    match url {
        Some(text) => string_item(MAJOR_TEXT, encode_utf8(text)),
        None => seq![NULL_BYTE],
    }
}

/// A field: its key as a text, then its value.
pub open spec fn field_bytes(key: Seq<u8>, value: Seq<u8>) -> Seq<u8> {
    string_item(MAJOR_TEXT, key) + value
}

/// The bytes of an envelope: a map of four fields, in the order timestamp,
/// network keys, onion service keys, marketplace URL.
pub open spec fn envelope_bytes(m: MetadataView) -> Seq<u8> {
    head_bytes(MAJOR_MAP, 4) + field_bytes(
        key_timestamp(),
        string_item(MAJOR_TEXT, timestamp_text(m.timestamp)),
    ) + field_bytes(key_network_keys(), table_bytes(m.network_keys)) + field_bytes(
        key_tor_keys(),
        table_bytes(m.tor_keys),
    ) + field_bytes(key_marketplace_url(), url_bytes(m.marketplace_url))
}

/// The table entry that starts at `pos`: a text in UTF-8, then a byte string
/// of `width` bytes.
pub open spec fn parse_entry(bytes: Seq<u8>, pos: int, width: int) -> Option<
    ((Seq<char>, Seq<u8>), int),
> {
    match parse_string(bytes, pos, MAJOR_TEXT) {
        Some((name_start, name_end)) => if valid_utf8(bytes.subrange(name_start, name_end)) {
            match parse_string(bytes, name_end, MAJOR_BYTES) {
                Some((key_start, key_end)) => if key_end - key_start == width {
                    Some(
                        (
                            (
                                decode_utf8(bytes.subrange(name_start, name_end)),
                                bytes.subrange(key_start, key_end),
                            ),
                            key_end,
                        ),
                    )
                } else {
                    None
                },
                None => None,
            }
        } else {
            None
        },
        None => None,
    }
}

/// The first `count` table entries from `pos` on, and where they end.
pub open spec fn parse_entries(bytes: Seq<u8>, pos: int, count: int, width: int) -> Option<
    (Seq<(Seq<char>, Seq<u8>)>, int),
>
    decreases count,
{
    if count <= 0 {
        Some((Seq::empty(), pos))
    } else {
        match parse_entries(bytes, pos, count - 1, width) {
            Some((entries, end)) => match parse_entry(bytes, end, width) {
                Some((entry, next)) => Some((entries.push(entry), next)),
                None => None,
            },
            None => None,
        }
    }
}

/// The table that starts at `pos`: a map whose entries `parse_entry` reads and
/// that names no interface twice.
pub open spec fn parse_table(bytes: Seq<u8>, pos: int, width: int) -> Option<
    (Seq<(Seq<char>, Seq<u8>)>, int),
> {
    match parse_head(bytes, pos) {
        Some((major, count, next)) => if major == MAJOR_MAP {
            match parse_entries(bytes, next, count as int, width) {
                Some((entries, end)) => if distinct_ids(entries) {
                    Some((entries, end))
                } else {
                    None
                },
                None => None,
            }
        } else {
            None
        },
        None => None,
    }
}

/// The value of the field `marketplace-url` that starts at `pos`: `null`, or
/// a text in UTF-8 that is an absolute URL.
pub open spec fn parse_url(bytes: Seq<u8>, pos: int) -> Option<(Option<Seq<char>>, int)> {
    if 0 <= pos < bytes.len() && bytes[pos] == NULL_BYTE {
        Some((None, pos + 1))
    } else {
        match parse_string(bytes, pos, MAJOR_TEXT) {
            Some((start, end)) => if valid_utf8(bytes.subrange(start, end)) && url_well_formed(
                decode_utf8(bytes.subrange(start, end)),
            ) {
                Some((Some(decode_utf8(bytes.subrange(start, end))), end))
            } else {
                None
            },
            None => None,
        }
    }
}

/// The fields read so far: for each, whether it was there and what it held.
pub struct Partial {
    pub timestamp: Option<Timestamp>,
    pub network_keys: Option<Seq<(Seq<char>, Seq<u8>)>>,
    pub tor_keys: Option<Seq<(Seq<char>, Seq<u8>)>>,
    pub marketplace_url: Option<Option<Seq<char>>>,
}

impl Partial {
    /// No field read yet.
    pub open spec fn none() -> Partial {
        Partial { timestamp: None, network_keys: None, tor_keys: None, marketplace_url: None }
    }
}

/// Reads the field that starts at `pos` into `acc`. A field's key is a text.
/// A known field that `acc` holds already, or whose value is not of its form,
/// gives `None`; an unknown field is stepped over, whatever its value.
pub open spec fn parse_field(bytes: Seq<u8>, pos: int, acc: Partial) -> Option<(Partial, int)> {
    match parse_string(bytes, pos, MAJOR_TEXT) {
        None => None,
        Some((key_start, key_end)) => {
            let name = bytes.subrange(key_start, key_end);
            if name == key_timestamp() {
                match parse_string(bytes, key_end, MAJOR_TEXT) {
                    Some((start, end)) => match parse_timestamp(bytes.subrange(start, end)) {
                        Some(t) => if acc.timestamp.is_none() {
                            Some((Partial { timestamp: Some(t), ..acc }, end))
                        } else {
                            None
                        },
                        None => None,
                    },
                    None => None,
                }
            } else if name == key_network_keys() {
                match parse_table(bytes, key_end, 32) {
                    Some((entries, end)) => if acc.network_keys.is_none() {
                        Some((Partial { network_keys: Some(entries), ..acc }, end))
                    } else {
                        None
                    },
                    None => None,
                }
            } else if name == key_tor_keys() {
                match parse_table(bytes, key_end, 64) {
                    Some((entries, end)) => if acc.tor_keys.is_none() {
                        Some((Partial { tor_keys: Some(entries), ..acc }, end))
                    } else {
                        None
                    },
                    None => None,
                }
            } else if name == key_marketplace_url() {
                match parse_url(bytes, key_end) {
                    Some((url, end)) => if acc.marketplace_url.is_none() {
                        Some((Partial { marketplace_url: Some(url), ..acc }, end))
                    } else {
                        None
                    },
                    None => None,
                }
            } else {
                match skip_items(bytes, key_end, 1) {
                    Some(end) => Some((acc, end)),
                    None => None,
                }
            }
        },
    }
}

/// The first `count` fields from `pos` on, and where they end.
pub open spec fn parse_fields(bytes: Seq<u8>, pos: int, count: int) -> Option<(Partial, int)>
    decreases count,
{
    if count <= 0 {
        Some((Partial::none(), pos))
    } else {
        match parse_fields(bytes, pos, count - 1) {
            Some((acc, end)) => parse_field(bytes, end, acc),
            None => None,
        }
    }
}

/// The envelope that the bytes hold: a map of fields that fills the bytes to
/// the last one and has a timestamp. `None` for anything else: bytes that end
/// early, bytes left over, a value of the wrong type, a field twice.
pub open spec fn parse_envelope(bytes: Seq<u8>) -> Option<MetadataView> {
    match parse_head(bytes, 0) {
        Some((major, count, next)) => if major == MAJOR_MAP {
            match parse_fields(bytes, next, count as int) {
                Some((acc, end)) => if end == bytes.len() && acc.timestamp.is_some() {
                    Some(
                        MetadataView {
                            timestamp: acc.timestamp.unwrap(),
                            network_keys: match acc.network_keys {
                                Some(entries) => entries,
                                None => Seq::empty(),
                            },
                            tor_keys: match acc.tor_keys {
                                Some(entries) => entries,
                                None => Seq::empty(),
                            },
                            marketplace_url: match acc.marketplace_url {
                                Some(url) => url,
                                None => None,
                            },
                        },
                    )
                } else {
                    None
                },
                None => None,
            }
        } else {
            None
        },
        None => None,
    }
}

/// The error for bytes that hold no envelope.
pub fn malformed() -> (e: Error)
    ensures
        e.kind == ErrorKind::Serialization,
        e.message@ == "malformed backup metadata"@,
{
    Error::new(ErrorKind::Serialization, "malformed backup metadata".to_owned())
}

/// Whether `bytes` holds exactly `name` from `start` up to `end`.
fn range_equals(bytes: &[u8], start: usize, end: usize, name: &[u8]) -> (same: bool)
    requires
        start <= end <= bytes@.len(),
    ensures
        same == (bytes@.subrange(start as int, end as int) == name@),
{
    bytes_equal(slice_subrange(bytes, start, end), name)
}

/// Appends the entries of a table.
fn push_table<const N: usize>(out: &mut Vec<u8>, entries: &Vec<KeyEntry<N>>)
    ensures
        final(out)@ == old(out)@ + table_bytes(entries_view(entries@)),
        table_fits(entries_view(entries@)),
        keys_of_width(entries_view(entries@), N as int),
{
    let ghost view = entries_view(entries@);
    push_head(out, MAJOR_MAP, entries.len() as u64);
    let ghost mid = out@;
    let mut i: usize = 0;
    assert(view.take(0) =~= Seq::empty());
    while i < entries.len()
        invariant
            i <= entries@.len(),
            view == entries_view(entries@),
            out@ == mid + entries_bytes(view.take(i as int)),
            forall|a: int| 0 <= a < i ==> encode_utf8((#[trigger] view[a]).0).len() <= u64::MAX,
        decreases entries@.len() - i,
    {
        let entry = &entries[i];
        let ghost before = out@;
        let name = entry.interface.as_str().as_bytes();
        push_string(out, MAJOR_TEXT, name);
        push_string(out, MAJOR_BYTES, array_as_slice(&entry.key));
        proof {
            assert(encode_utf8(view[i as int].0).len() == name.len());
            let longer = view.take(i + 1);
            assert(longer.drop_last() =~= view.take(i as int));
            assert(longer.last() == view[i as int]);
            assert(out@ =~= before + entry_bytes(view[i as int]));
            assert(out@ =~= mid + entries_bytes(longer));
        }
        i += 1;
    }
    assert(view.take(entries@.len() as int) =~= view);
    assert(out@ =~= old(out)@ + table_bytes(view));
}

/// Whether no interface is named twice.
fn has_distinct_ids<const N: usize>(entries: &Vec<KeyEntry<N>>) -> (b: bool)
    ensures
        b == distinct_ids(entries_view(entries@)),
{
    let ghost view = entries_view(entries@);
    let mut j: usize = 0;
    while j < entries.len()
        invariant
            j <= entries@.len(),
            view == entries_view(entries@),
            forall|a: int, b: int|
                0 <= a < b < j ==> (#[trigger] view[a]).0 != (#[trigger] view[b]).0,
        decreases entries@.len() - j,
    {
        let mut i: usize = 0;
        while i < j
            invariant
                i <= j < entries@.len(),
                view == entries_view(entries@),
                forall|a: int| 0 <= a < i ==> (#[trigger] view[a]).0 != view[j as int].0,
            decreases j - i,
        {
            if entries[i].interface == entries[j].interface {
                assert(view[i as int].0 == view[j as int].0);
                return false;
            }
            i += 1;
        }
        j += 1;
    }
    true
}

impl BackupMetadata {
    /// The envelope's bytes.
    pub fn encode(&self) -> (bytes: Vec<u8>)
        ensures
            bytes@ == envelope_bytes(self@),
            self@.fits(),
    {
        let mut out: Vec<u8> = Vec::new();
        proof {
            lemma_key_texts();
        }
        push_head(&mut out, MAJOR_MAP, 4);
        push_string(&mut out, MAJOR_TEXT, array_as_slice(&KEY_TIMESTAMP));
        let text = self.timestamp.to_rfc3339();
        push_string(&mut out, MAJOR_TEXT, text.as_slice());
        push_string(&mut out, MAJOR_TEXT, array_as_slice(&KEY_NETWORK_KEYS));
        push_table(&mut out, &self.network_keys);
        push_string(&mut out, MAJOR_TEXT, array_as_slice(&KEY_TOR_KEYS));
        push_table(&mut out, &self.tor_keys);
        push_string(&mut out, MAJOR_TEXT, array_as_slice(&KEY_MARKETPLACE_URL));
        match &self.marketplace_url {
            Some(url) => {
                let text = url.as_str().as_bytes();
                assert(encode_utf8(url@).len() == text.len());
                push_string(&mut out, MAJOR_TEXT, text);
            },
            None => {
                out.push(NULL_BYTE);
            },
        }
        assert(out@ =~= envelope_bytes(self@));
        out
    }

    /// Tests whether the envelope can be written and read back.
    pub fn is_valid(&self) -> (b: bool)
        ensures
            b == self@.valid(),
    {
        let url_ok: bool = match &self.marketplace_url {
            Some(url) => url_parses(url.as_str()),
            None => true,
        };
        self.timestamp.is_valid() && has_distinct_ids(&self.network_keys) && has_distinct_ids(
            &self.tor_keys,
        ) && url_ok
    }
}


/// Once a table entry cannot be read, no longer run of entries can.
pub proof fn lemma_entries_stay_none(bytes: Seq<u8>, pos: int, failed: int, count: int, width: int)
    requires
        failed <= count,
        parse_entries(bytes, pos, failed, width).is_none(),
    ensures
        parse_entries(bytes, pos, count, width).is_none(),
    decreases count - failed,
{
    if failed < count {
        lemma_entries_stay_none(bytes, pos, failed, count - 1, width);
    }
}

/// Once a field cannot be read, no longer run of fields can.
pub proof fn lemma_fields_stay_none(bytes: Seq<u8>, pos: int, failed: int, count: int)
    requires
        failed <= count,
        parse_fields(bytes, pos, failed).is_none(),
    ensures
        parse_fields(bytes, pos, count).is_none(),
    decreases count - failed,
{
    if failed < count {
        lemma_fields_stay_none(bytes, pos, failed, count - 1);
    }
}

/// Reads the table entry that starts at `pos`.
fn read_entry<const N: usize>(bytes: &[u8], pos: usize) -> (r: Option<(KeyEntry<N>, usize)>)
    ensures
        match parse_entry(bytes@, pos as int, N as int) {
            Some((entry, next)) => r matches Some((e, n)) && (e.interface@, e.key@) == entry && n
                == next && pos < next <= bytes@.len(),
            None => r.is_none(),
        },
{
    let (name_start, name_end) = match read_string(bytes, pos, MAJOR_TEXT) {
        Some(bounds) => bounds,
        None => { return None; },
    };
    let name = match utf8_text(slice_subrange(bytes, name_start, name_end)) {
        Some(text) => text,
        None => { return None; },
    };
    let (key_start, key_end) = match read_string(bytes, name_end, MAJOR_BYTES) {
        Some(bounds) => bounds,
        None => { return None; },
    };
    if key_end - key_start != N {
        return None;
    }
    let mut key: [u8; N] = [0u8; N];
    let mut i: usize = 0;
    while i < N
        invariant
            i <= N,
            key_start + N == key_end <= bytes@.len(),
            forall|j: int| 0 <= j < i ==> key@[j] == bytes@[key_start + j],
        decreases N - i,
    {
        key[i] = bytes[key_start + i];
        i += 1;
    }
    assert(key@ =~= bytes@.subrange(key_start as int, key_end as int));
    Some((KeyEntry { interface: name.to_owned(), key }, key_end))
}

/// Reads `count` table entries from `pos` on.
fn read_entries<const N: usize>(bytes: &[u8], pos: usize, count: u64) -> (r: Option<
    (Vec<KeyEntry<N>>, usize),
>)
    requires
        pos <= bytes@.len(),
    ensures
        match parse_entries(bytes@, pos as int, count as int, N as int) {
            Some((entries, end)) => r matches Some((v, e)) && entries_view(v@) == entries && e
                == end && pos <= end <= bytes@.len(),
            None => r.is_none(),
        },
{
    let mut entries: Vec<KeyEntry<N>> = Vec::new();
    let mut cur: usize = pos;
    let mut i: u64 = 0;
    assert(entries_view(entries@) =~= Seq::empty());
    while i < count
        invariant
            i <= count,
            pos <= cur <= bytes@.len(),
            parse_entries(bytes@, pos as int, i as int, N as int) == Some(
                (entries_view(entries@), cur as int),
            ),
        decreases count - i,
    {
        let ghost before = entries_view(entries@);
        match read_entry::<N>(bytes, cur) {
            None => {
                proof {
                    lemma_entries_stay_none(bytes@, pos as int, i + 1, count as int, N as int);
                }
                return None;
            },
            Some((entry, next)) => {
                entries.push(entry);
                cur = next;
            },
        }
        i += 1;
        assert(entries_view(entries@) =~= before.push(
            (entries@.last().interface@, entries@.last().key@),
        ));
    }
    Some((entries, cur))
}

/// Reads the table that starts at `pos`.
fn read_table<const N: usize>(bytes: &[u8], pos: usize) -> (r: Option<(Vec<KeyEntry<N>>, usize)>)
    ensures
        match parse_table(bytes@, pos as int, N as int) {
            Some((entries, end)) => r matches Some((v, e)) && entries_view(v@) == entries && e
                == end && pos < end <= bytes@.len(),
            None => r.is_none(),
        },
{
    let head = match read_head(bytes, pos) {
        Some(head) => head,
        None => { return None; },
    };
    if head.major != MAJOR_MAP {
        return None;
    }
    match read_entries::<N>(bytes, head.next, head.arg) {
        None => None,
        Some((entries, end)) => {
            if has_distinct_ids(&entries) {
                Some((entries, end))
            } else {
                None
            }
        },
    }
}

/// Reads the marketplace URL that starts at `pos`.
fn read_url(bytes: &[u8], pos: usize) -> (r: Option<(Option<String>, usize)>)
    ensures
        match parse_url(bytes@, pos as int) {
            Some((url, end)) => r matches Some((u, e)) && e == end && pos < end <= bytes@.len()
                && match url {
                Some(text) => u matches Some(t) && t@ == text,
                None => u.is_none(),
            },
            None => r.is_none(),
        },
{
    if pos < bytes.len() && bytes[pos] == NULL_BYTE {
        return Some((None, pos + 1));
    }
    let (start, end) = match read_string(bytes, pos, MAJOR_TEXT) {
        Some(bounds) => bounds,
        None => { return None; },
    };
    match utf8_text(slice_subrange(bytes, start, end)) {
        None => None,
        Some(text) => {
            if url_parses(text) {
                Some((Some(text.to_owned()), end))
            } else {
                None
            }
        },
    }
}

/// The fields of an envelope as they are read, each absent until its key
/// turns up.
struct Fields {
    timestamp: Option<Timestamp>,
    network_keys: Option<Vec<KeyEntry<32>>>,
    tor_keys: Option<Vec<KeyEntry<64>>>,
    marketplace_url: Option<Option<String>>,
}

impl Fields {
    spec fn partial(&self) -> Partial {
        Partial {
            timestamp: self.timestamp,
            network_keys: match self.network_keys {
                Some(entries) => Some(entries_view(entries@)),
                None => None,
            },
            tor_keys: match self.tor_keys {
                Some(entries) => Some(entries_view(entries@)),
                None => None,
            },
            marketplace_url: match self.marketplace_url {
                Some(Some(url)) => Some(Some(url@)),
                Some(None) => Some(None),
                None => None,
            },
        }
    }
}

/// Reads the field that starts at `pos` into `acc`.
fn read_field(bytes: &[u8], pos: usize, acc: Fields) -> (r: Option<(Fields, usize)>)
    ensures
        match parse_field(bytes@, pos as int, acc.partial()) {
            Some((partial, end)) => r matches Some((fields, e)) && fields.partial() == partial
                && e == end && pos < end <= bytes@.len(),
            None => r.is_none(),
        },
{
    proof {
        lemma_key_texts();
    }
    let (key_start, key_end) = match read_string(bytes, pos, MAJOR_TEXT) {
        Some(bounds) => bounds,
        None => { return None; },
    };
    let mut acc = acc;
    if range_equals(bytes, key_start, key_end, array_as_slice(&KEY_TIMESTAMP)) {
        let (start, end) = match read_string(bytes, key_end, MAJOR_TEXT) {
            Some(bounds) => bounds,
            None => { return None; },
        };
        match read_timestamp(bytes, start, end) {
            None => None,
            Some(t) => {
                if acc.timestamp.is_some() {
                    return None;
                }
                acc.timestamp = Some(t);
                Some((acc, end))
            },
        }
    } else if range_equals(bytes, key_start, key_end, array_as_slice(&KEY_NETWORK_KEYS)) {
        match read_table::<32>(bytes, key_end) {
            None => None,
            Some((entries, end)) => {
                if acc.network_keys.is_some() {
                    return None;
                }
                acc.network_keys = Some(entries);
                Some((acc, end))
            },
        }
    } else if range_equals(bytes, key_start, key_end, array_as_slice(&KEY_TOR_KEYS)) {
        match read_table::<64>(bytes, key_end) {
            None => None,
            Some((entries, end)) => {
                if acc.tor_keys.is_some() {
                    return None;
                }
                acc.tor_keys = Some(entries);
                Some((acc, end))
            },
        }
    } else if range_equals(bytes, key_start, key_end, array_as_slice(&KEY_MARKETPLACE_URL)) {
        match read_url(bytes, key_end) {
            None => None,
            Some((url, end)) => {
                if acc.marketplace_url.is_some() {
                    return None;
                }
                acc.marketplace_url = Some(url);
                Some((acc, end))
            },
        }
    } else {
        match skip_item(bytes, key_end) {
            None => None,
            Some(end) => Some((acc, end)),
        }
    }
}

impl BackupMetadata {
    /// Reads an envelope. Bytes that hold none give an error of the kind
    /// `Serialization`; nothing is filled in for bytes that are broken.
    pub fn decode(bytes: &[u8]) -> (r: Result<BackupMetadata, Error>)
        ensures
            match parse_envelope(bytes@) {
                Some(m) => r matches Ok(metadata) && metadata@ == m,
                None => r matches Err(e) && e.kind == ErrorKind::Serialization && e.message@
                    == "malformed backup metadata"@,
            },
    {
        let head = match read_head(bytes, 0) {
            Some(head) => head,
            None => { return Err(malformed()); },
        };
        if head.major != MAJOR_MAP {
            return Err(malformed());
        }
        let mut fields = Fields {
            timestamp: None,
            network_keys: None,
            tor_keys: None,
            marketplace_url: None,
        };
        let mut cur: usize = head.next;
        let mut i: u64 = 0;
        while i < head.arg
            invariant
                i <= head.arg,
                head.next <= cur <= bytes@.len(),
                parse_head(bytes@, 0) == Some((MAJOR_MAP, head.arg, head.next as int)),
                parse_fields(bytes@, head.next as int, i as int) == Some(
                    (fields.partial(), cur as int),
                ),
            decreases head.arg - i,
        {
            let ghost partial = fields.partial();
            match read_field(bytes, cur, fields) {
                None => {
                    proof {
                        lemma_fields_stay_none(
                            bytes@,
                            head.next as int,
                            i + 1,
                            head.arg as int,
                        );
                    }
                    return Err(malformed());
                },
                Some((next_fields, next)) => {
                    fields = next_fields;
                    cur = next;
                },
            }
            i += 1;
        }
        if cur != bytes.len() {
            return Err(malformed());
        }
        let timestamp = match fields.timestamp {
            Some(t) => t,
            None => { return Err(malformed()); },
        };
        let network_keys = match fields.network_keys {
            Some(entries) => entries,
            None => Vec::new(),
        };
        let tor_keys = match fields.tor_keys {
            Some(entries) => entries,
            None => Vec::new(),
        };
        let marketplace_url = match fields.marketplace_url {
            Some(url) => url,
            None => None,
        };
        let metadata = BackupMetadata { timestamp, network_keys, tor_keys, marketplace_url };
        assert(metadata@.network_keys =~= parse_envelope(bytes@).unwrap().network_keys);
        assert(metadata@.tor_keys =~= parse_envelope(bytes@).unwrap().tor_keys);
        Ok(metadata)
    }
}


/// A table entry that was written is read back as it was.
pub proof fn lemma_entry_round_trip(
    bytes: Seq<u8>,
    pos: int,
    entry: (Seq<char>, Seq<u8>),
    width: int,
)
    requires
        encode_utf8(entry.0).len() <= u64::MAX,
        entry.1.len() == width,
        width <= u64::MAX,
        has_at(bytes, pos, entry_bytes(entry)),
    ensures
        parse_entry(bytes, pos, width) == Some((entry, pos + entry_bytes(entry).len())),
{
    let name = string_item(MAJOR_TEXT, encode_utf8(entry.0));
    let key = string_item(MAJOR_BYTES, entry.1);
    lemma_has_at_split(bytes, pos, name, key);
    lemma_string_round_trip(bytes, pos, MAJOR_TEXT, encode_utf8(entry.0));
    lemma_string_round_trip(bytes, pos + name.len(), MAJOR_BYTES, entry.1);
    encode_utf8_valid_utf8(entry.0);
    encode_utf8_decode_utf8(entry.0);
}

/// The entries of a table that were written are read back as they were.
pub proof fn lemma_entries_round_trip(
    bytes: Seq<u8>,
    pos: int,
    entries: Seq<(Seq<char>, Seq<u8>)>,
    width: int,
)
    requires
        table_fits(entries),
        keys_of_width(entries, width),
        width <= u64::MAX,
        has_at(bytes, pos, entries_bytes(entries)),
    ensures
        parse_entries(bytes, pos, entries.len() as int, width) == Some(
            (entries, pos + entries_bytes(entries).len()),
        ),
    decreases entries.len(),
{
    if entries.len() == 0 {
        assert(entries =~= Seq::empty());
    } else {
        let init = entries.drop_last();
        let last = entries.last();
        lemma_has_at_split(bytes, pos, entries_bytes(init), entry_bytes(last));
        assert forall|i: int| 0 <= i < init.len() implies encode_utf8((#[trigger] init[i]).0).len()
            <= u64::MAX && init[i].1.len() == width by {
            assert(init[i] == entries[i]);
        }
        lemma_entries_round_trip(bytes, pos, init, width);
        lemma_entry_round_trip(bytes, pos + entries_bytes(init).len(), last, width);
        assert(init.push(last) =~= entries);
    }
}

/// A table that was written is read back as it was.
pub proof fn lemma_table_round_trip(
    bytes: Seq<u8>,
    pos: int,
    entries: Seq<(Seq<char>, Seq<u8>)>,
    width: int,
)
    requires
        table_fits(entries),
        keys_of_width(entries, width),
        distinct_ids(entries),
        width <= u64::MAX,
        has_at(bytes, pos, table_bytes(entries)),
    ensures
        parse_table(bytes, pos, width) == Some((entries, pos + table_bytes(entries).len())),
{
    let head = head_bytes(MAJOR_MAP, entries.len() as u64);
    lemma_has_at_split(bytes, pos, head, entries_bytes(entries));
    lemma_head_round_trip(bytes, pos, MAJOR_MAP, entries.len() as u64);
    lemma_entries_round_trip(bytes, pos + head.len(), entries, width);
}

/// A marketplace URL that was written is read back as it was.
pub proof fn lemma_url_round_trip(bytes: Seq<u8>, pos: int, url: Option<Seq<char>>)
    requires
        url matches Some(text) ==> encode_utf8(text).len() <= u64::MAX && url_well_formed(text),
        has_at(bytes, pos, url_bytes(url)),
    ensures
        parse_url(bytes, pos) == Some((url, pos + url_bytes(url).len())),
{
    match url {
        Some(text) => {
            let payload = encode_utf8(text);
            let head = head_bytes(MAJOR_TEXT, payload.len() as u64);
            lemma_head_bytes_len(MAJOR_TEXT, payload.len() as u64);
            lemma_has_at_split(bytes, pos, head, payload);
            assert(bytes[pos] == head[0]);
            assert(head[0] != NULL_BYTE);
            lemma_string_round_trip(bytes, pos, MAJOR_TEXT, payload);
            encode_utf8_valid_utf8(text);
            encode_utf8_decode_utf8(text);
        },
        None => {
            assert(bytes[pos] == url_bytes(url)[0]);
        },
    }
}

/// The key of a field that was written is read back, and what follows it is
/// the field's value.
proof fn lemma_field_key(bytes: Seq<u8>, pos: int, key: Seq<u8>, value: Seq<u8>)
    requires
        key.len() <= 15,
        has_at(bytes, pos, field_bytes(key, value)),
    ensures
        parse_string(bytes, pos, MAJOR_TEXT) matches Some((start, end)) && bytes.subrange(
            start,
            end,
        ) == key && end == pos + string_item(MAJOR_TEXT, key).len() && has_at(bytes, end, value),
{
    lemma_has_at_split(bytes, pos, string_item(MAJOR_TEXT, key), value);
    lemma_string_round_trip(bytes, pos, MAJOR_TEXT, key);
}

/// The timestamp field that was written is read back.
proof fn lemma_timestamp_field(bytes: Seq<u8>, pos: int, acc: Partial, t: Timestamp)
    requires
        t.valid(),
        acc.timestamp.is_none(),
        has_at(
            bytes,
            pos,
            field_bytes(key_timestamp(), string_item(MAJOR_TEXT, timestamp_text(t))),
        ),
    ensures
        parse_field(bytes, pos, acc) == Some(
            (
                Partial { timestamp: Some(t), ..acc },
                pos + field_bytes(
                    key_timestamp(),
                    string_item(MAJOR_TEXT, timestamp_text(t)),
                ).len(),
            ),
        ),
{
    let value = string_item(MAJOR_TEXT, timestamp_text(t));
    lemma_field_key(bytes, pos, key_timestamp(), value);
    lemma_timestamp_round_trip(t);
    let end = pos + string_item(MAJOR_TEXT, key_timestamp()).len();
    lemma_string_round_trip(bytes, end, MAJOR_TEXT, timestamp_text(t));
}

/// The field of the network keys that was written is read back.
proof fn lemma_network_field(
    bytes: Seq<u8>,
    pos: int,
    acc: Partial,
    entries: Seq<(Seq<char>, Seq<u8>)>,
)
    requires
        table_fits(entries),
        keys_of_width(entries, 32),
        distinct_ids(entries),
        acc.network_keys.is_none(),
        has_at(bytes, pos, field_bytes(key_network_keys(), table_bytes(entries))),
    ensures
        parse_field(bytes, pos, acc) == Some(
            (
                Partial { network_keys: Some(entries), ..acc },
                pos + field_bytes(key_network_keys(), table_bytes(entries)).len(),
            ),
        ),
{
    lemma_field_key(bytes, pos, key_network_keys(), table_bytes(entries));
    let end = pos + string_item(MAJOR_TEXT, key_network_keys()).len();
    lemma_table_round_trip(bytes, end, entries, 32);
    assert(key_network_keys().len() != key_timestamp().len());
}

/// The field of the onion service keys that was written is read back.
proof fn lemma_tor_field(
    bytes: Seq<u8>,
    pos: int,
    acc: Partial,
    entries: Seq<(Seq<char>, Seq<u8>)>,
)
    requires
        table_fits(entries),
        keys_of_width(entries, 64),
        distinct_ids(entries),
        acc.tor_keys.is_none(),
        has_at(bytes, pos, field_bytes(key_tor_keys(), table_bytes(entries))),
    ensures
        parse_field(bytes, pos, acc) == Some(
            (
                Partial { tor_keys: Some(entries), ..acc },
                pos + field_bytes(key_tor_keys(), table_bytes(entries)).len(),
            ),
        ),
{
    lemma_field_key(bytes, pos, key_tor_keys(), table_bytes(entries));
    let end = pos + string_item(MAJOR_TEXT, key_tor_keys()).len();
    lemma_table_round_trip(bytes, end, entries, 64);
    assert(key_tor_keys().len() != key_timestamp().len());
    assert(key_tor_keys().len() != key_network_keys().len());
}

/// The field of the marketplace URL that was written is read back.
proof fn lemma_url_field(bytes: Seq<u8>, pos: int, acc: Partial, url: Option<Seq<char>>)
    requires
        url matches Some(text) ==> encode_utf8(text).len() <= u64::MAX && url_well_formed(text),
        acc.marketplace_url.is_none(),
        has_at(bytes, pos, field_bytes(key_marketplace_url(), url_bytes(url))),
    ensures
        parse_field(bytes, pos, acc) == Some(
            (
                Partial { marketplace_url: Some(url), ..acc },
                pos + field_bytes(key_marketplace_url(), url_bytes(url)).len(),
            ),
        ),
{
    lemma_field_key(bytes, pos, key_marketplace_url(), url_bytes(url));
    let end = pos + string_item(MAJOR_TEXT, key_marketplace_url()).len();
    lemma_url_round_trip(bytes, end, url);
    assert(key_marketplace_url().len() != key_timestamp().len());
    assert(key_marketplace_url().len() != key_network_keys().len());
    assert(key_marketplace_url().len() != key_tor_keys().len());
}

/// Reading what was written gives what was written: the bytes of a valid
/// envelope hold that envelope, with every table in the order it had.
pub proof fn lemma_envelope_round_trip(m: MetadataView)
    requires
        m.valid(),
        m.fits(),
    ensures
        parse_envelope(envelope_bytes(m)) == Some(m),
{
    let bytes = envelope_bytes(m);
    let head = head_bytes(MAJOR_MAP, 4);
    let f1 = field_bytes(key_timestamp(), string_item(MAJOR_TEXT, timestamp_text(m.timestamp)));
    let f2 = field_bytes(key_network_keys(), table_bytes(m.network_keys));
    let f3 = field_bytes(key_tor_keys(), table_bytes(m.tor_keys));
    let f4 = field_bytes(key_marketplace_url(), url_bytes(m.marketplace_url));
    let p1 = head;
    let p2 = p1 + f1;
    let p3 = p2 + f2;
    let p4 = p3 + f3;
    assert(bytes == p4 + f4);
    assert(has_at(bytes, 0, bytes));
    lemma_has_at_split(bytes, 0, p4, f4);
    lemma_has_at_split(bytes, 0, p3, f3);
    lemma_has_at_split(bytes, 0, p2, f2);
    lemma_has_at_split(bytes, 0, p1, f1);
    lemma_head_round_trip(bytes, 0, MAJOR_MAP, 4);
    let start = p1.len() as int;
    let a0 = Partial::none();
    let a1 = Partial { timestamp: Some(m.timestamp), ..a0 };
    let a2 = Partial { network_keys: Some(m.network_keys), ..a1 };
    let a3 = Partial { tor_keys: Some(m.tor_keys), ..a2 };
    let a4 = Partial { marketplace_url: Some(m.marketplace_url), ..a3 };
    lemma_timestamp_field(bytes, p1.len() as int, a0, m.timestamp);
    lemma_network_field(bytes, p2.len() as int, a1, m.network_keys);
    lemma_tor_field(bytes, p3.len() as int, a2, m.tor_keys);
    lemma_url_field(bytes, p4.len() as int, a3, m.marketplace_url);
    assert(parse_fields(bytes, start, 0) == Some((a0, start)));
    assert(parse_fields(bytes, start, 1) == Some((a1, p2.len() as int)));
    assert(parse_fields(bytes, start, 2) == Some((a2, p3.len() as int)));
    assert(parse_fields(bytes, start, 3) == Some((a3, p4.len() as int)));
    assert(parse_fields(bytes, start, 4) == Some((a4, bytes.len() as int)));
}

impl BackupMetadata {
    /// The envelope's bytes, for an envelope that can be read back from them;
    /// `None` for one that is not valid.
    pub fn encode_valid(&self) -> (r: Option<Vec<u8>>)
        ensures
            r.is_some() == self@.valid(),
            r matches Some(bytes) ==> bytes@ == envelope_bytes(self@) && parse_envelope(bytes@)
                == Some(self@),
    {
        if !self.is_valid() {
            return None;
        }
        let bytes = self.encode();
        proof {
            lemma_envelope_round_trip(self@);
        }
        Some(bytes)
    }
}

} // verus!
