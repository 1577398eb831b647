//! The network keys of a package, and the two tables of an envelope that they
//! are written to.

use vstd::prelude::*;
use crate::metadata::{distinct_ids, entries_view, keys_of_width, KeyEntry};
use crate::text::text_equal;

verus! {

/// A network key as the key store hands it out: the interface that it is
/// bound to, if any, its 32 bytes, and the 64 bytes of the onion service key
/// that was derived from them. It has no `Debug`, so that no log shows a
/// key.
pub struct Key {
    pub interface: Option<String>,
    pub secret: [u8; 32],
    pub tor_key: [u8; 64],
}

/// A key as plain values.
pub struct KeyView {
    pub interface: Option<Seq<char>>,
    pub secret: Seq<u8>,
    pub tor_key: Seq<u8>,
}

impl View for Key {
    type V = KeyView;

    open spec fn view(&self) -> KeyView {
        KeyView {
            interface: match self.interface {
                Some(name) => Some(name@),
                None => None,
            },
            secret: self.secret@,
            tor_key: self.tor_key@,
        }
    }
}

/// The keys as plain values.
pub open spec fn key_views(keys: Seq<Key>) -> Seq<KeyView> {
    Seq::new(keys.len(), |i: int| keys[i]@)
}

/// Where the table names the interface; its length where it does not.
pub open spec fn position_of(table: Seq<(Seq<char>, Seq<u8>)>, interface: Seq<char>) -> int
    decreases table.len(),
{
    if table.len() == 0 {
        0
    } else if table[0].0 == interface {
        0
    } else {
        1 + position_of(table.drop_first(), interface)
    }
}

/// The table with this key for the interface: in the place of the key that
/// the interface had, or at the end where it had none.
pub open spec fn table_with(
    table: Seq<(Seq<char>, Seq<u8>)>,
    interface: Seq<char>,
    key: Seq<u8>,
) -> Seq<(Seq<char>, Seq<u8>)> {
    let at = position_of(table, interface);
    if at < table.len() {
        table.update(at, (interface, key))
    } else {
        table.push((interface, key))
    }
}

/// The table of the 32-byte keys: each key that is bound to an interface, in
/// the order the keys come; of two keys for one interface the later one
/// stays. Keys bound to no interface are left out.
pub open spec fn network_table(keys: Seq<KeyView>) -> Seq<(Seq<char>, Seq<u8>)>
    decreases keys.len(),
{
    if keys.len() == 0 {
        Seq::empty()
    } else {
        let table = network_table(keys.drop_last());
        match keys.last().interface {
            Some(interface) => table_with(table, interface, keys.last().secret),
            None => table,
        }
    }
}

/// The table of the onion service keys, made as `network_table` is.
pub open spec fn tor_table(keys: Seq<KeyView>) -> Seq<(Seq<char>, Seq<u8>)>
    decreases keys.len(),
{
    if keys.len() == 0 {
        Seq::empty()
    } else {
        let table = tor_table(keys.drop_last());
        match keys.last().interface {
            Some(interface) => table_with(table, interface, keys.last().tor_key),
            None => table,
        }
    }
}

/// The interfaces that a table names, in its order.
pub open spec fn interfaces_of(table: Seq<(Seq<char>, Seq<u8>)>) -> Seq<Seq<char>> {
    Seq::new(table.len(), |i: int| table[i].0)
}

proof fn lemma_position(table: Seq<(Seq<char>, Seq<u8>)>, interface: Seq<char>)
    ensures
        0 <= position_of(table, interface) <= table.len(),
        position_of(table, interface) < table.len() ==> table[position_of(
            table,
            interface,
        )].0 == interface,
        forall|i: int|
            0 <= i < position_of(table, interface) ==> (#[trigger] table[i]).0 != interface,
    decreases table.len(),
{
    if table.len() > 0 && table[0].0 != interface {
        let rest = table.drop_first();
        lemma_position(rest, interface);
        assert forall|i: int| 0 <= i < position_of(table, interface) implies (
        #[trigger] table[i]).0 != interface by {
            if i > 0 {
                assert(table[i] == rest[i - 1]);
            }
        }
    }
}

/// Putting a key into a table that names no interface twice gives such a
/// table again, with keys of the same width.
pub proof fn lemma_table_with(
    table: Seq<(Seq<char>, Seq<u8>)>,
    interface: Seq<char>,
    key: Seq<u8>,
    width: int,
)
    requires
        distinct_ids(table),
        keys_of_width(table, width),
        key.len() == width,
    ensures
        distinct_ids(table_with(table, interface, key)),
        keys_of_width(table_with(table, interface, key), width),
        interfaces_of(table_with(table, interface, key)) == if position_of(table, interface)
            < table.len() {
            interfaces_of(table)
        } else {
            interfaces_of(table).push(interface)
        },
{
    lemma_position(table, interface);
    let after = table_with(table, interface, key);
    let at = position_of(table, interface);
    if at < table.len() {
        assert forall|i: int, j: int| 0 <= i < j < after.len() implies (#[trigger] after[i]).0 != (
        #[trigger] after[j]).0 by {
            assert(after[i].0 == table[i].0);
            assert(after[j].0 == table[j].0);
        }
        assert(interfaces_of(after) =~= interfaces_of(table));
    } else {
        assert forall|i: int, j: int| 0 <= i < j < after.len() implies (#[trigger] after[i]).0 != (
        #[trigger] after[j]).0 by {
            assert(after[i] == table[i]);
            if j < table.len() {
                assert(after[j] == table[j]);
            }
        }
        assert(interfaces_of(after) =~= interfaces_of(table).push(interface));
    }
    assert forall|i: int| 0 <= i < after.len() implies (#[trigger] after[i]).1.len() == width by {
        if i < table.len() && i != at {
            assert(after[i] == table[i]);
        }
    }
}

/// The two tables of a run of keys name the same interfaces in the same
/// order, each once, with keys of 32 and of 64 bytes: every key in the one
/// has its onion service key in the other.
pub proof fn lemma_tables_agree(keys: Seq<KeyView>)
    requires
        forall|i: int|
            0 <= i < keys.len() ==> (#[trigger] keys[i]).secret.len() == 32 && keys[i].tor_key.len()
                == 64,
    ensures
        interfaces_of(network_table(keys)) == interfaces_of(tor_table(keys)),
        distinct_ids(network_table(keys)),
        distinct_ids(tor_table(keys)),
        keys_of_width(network_table(keys), 32),
        keys_of_width(tor_table(keys), 64),
    decreases keys.len(),
{
    if keys.len() > 0 {
        let init = keys.drop_last();
        assert forall|i: int| 0 <= i < init.len() implies (#[trigger] init[i]).secret.len() == 32
            && init[i].tor_key.len() == 64 by {
            assert(init[i] == keys[i]);
        }
        lemma_tables_agree(init);
        match keys.last().interface {
            Some(interface) => {
                let n = network_table(init);
                let t = tor_table(init);
                lemma_table_with(n, interface, keys.last().secret, 32);
                lemma_table_with(t, interface, keys.last().tor_key, 64);
                lemma_same_position(n, t, interface);
            },
            None => {},
        }
    } else {
        assert(interfaces_of(network_table(keys)) =~= interfaces_of(tor_table(keys)));
    }
}

proof fn lemma_same_position(
    a: Seq<(Seq<char>, Seq<u8>)>,
    b: Seq<(Seq<char>, Seq<u8>)>,
    interface: Seq<char>,
)
    requires
        interfaces_of(a) == interfaces_of(b),
    ensures
        position_of(a, interface) == position_of(b, interface),
        a.len() == b.len(),
    decreases a.len(),
{
    assert(interfaces_of(a).len() == a.len());
    assert(interfaces_of(b).len() == b.len());
    if a.len() > 0 {
        assert(interfaces_of(a)[0] == a[0].0);
        assert(interfaces_of(b)[0] == b[0].0);
        if a[0].0 != interface {
            let ra = a.drop_first();
            let rb = b.drop_first();
            assert forall|i: int| 0 <= i < ra.len() implies interfaces_of(ra)[i] == interfaces_of(
                rb,
            )[i] by {
                assert(interfaces_of(a)[i + 1] == a[i + 1].0);
                assert(interfaces_of(b)[i + 1] == b[i + 1].0);
                assert(ra[i] == a[i + 1]);
                assert(rb[i] == b[i + 1]);
            }
            assert(interfaces_of(ra) =~= interfaces_of(rb));
            lemma_same_position(ra, rb, interface);
        }
    }
}

/// Where the table names the interface.
fn find<const N: usize>(table: &Vec<KeyEntry<N>>, interface: &str) -> (at: usize)
    ensures
        at == position_of(entries_view(table@), interface@),
{
    let ghost view = entries_view(table@);
    let mut i: usize = 0;
    proof {
        assert(view.skip(0) =~= view);
    }
    while i < table.len()
        invariant
            i <= table@.len(),
            view == entries_view(table@),
            position_of(view, interface@) == i + position_of(view.skip(i as int), interface@),
        decreases table@.len() - i,
    {
        proof {
            let rest = view.skip(i as int);
            assert(rest[0] == view[i as int]);
            assert(rest.drop_first() =~= view.skip(i + 1));
        }
        if text_equal(table[i].interface.as_str(), interface) {
            return i;
        }
        i += 1;
    }
    i
}

/// Puts a key for the interface into the table.
fn put<const N: usize>(table: &mut Vec<KeyEntry<N>>, interface: &str, key: [u8; N])
    ensures
        entries_view(final(table)@) == table_with(entries_view(old(table)@), interface@, key@),
{
    let at = find(table, interface);
    let entry = KeyEntry { interface: interface.to_owned(), key };
    if at < table.len() {
        table.remove(at);
        table.insert(at, entry);
    } else {
        table.push(entry);
    }
    assert(entries_view(table@) =~= table_with(entries_view(old(table)@), interface@, key@));
}

/// The two tables of an envelope for these keys: the 32-byte keys and the
/// onion service keys of the keys that are bound to an interface.
pub fn project_keys(keys: &Vec<Key>) -> (tables: (Vec<KeyEntry<32>>, Vec<KeyEntry<64>>))
    ensures
        entries_view(tables.0@) == network_table(key_views(keys@)),
        entries_view(tables.1@) == tor_table(key_views(keys@)),
        interfaces_of(entries_view(tables.0@)) == interfaces_of(entries_view(tables.1@)),
        distinct_ids(entries_view(tables.0@)),
        distinct_ids(entries_view(tables.1@)),
{
    let ghost views = key_views(keys@);
    let mut network: Vec<KeyEntry<32>> = Vec::new();
    let mut tor: Vec<KeyEntry<64>> = Vec::new();
    let mut i: usize = 0;
    proof {
        assert(views.take(0) =~= Seq::empty());
        assert(entries_view(network@) =~= Seq::empty());
        assert(entries_view(tor@) =~= Seq::empty());
    }
    while i < keys.len()
        invariant
            i <= keys@.len(),
            views == key_views(keys@),
            entries_view(network@) == network_table(views.take(i as int)),
            entries_view(tor@) == tor_table(views.take(i as int)),
        decreases keys@.len() - i,
    {
        proof {
            let longer = views.take(i + 1);
            assert(longer.drop_last() =~= views.take(i as int));
            assert(longer.last() == views[i as int]);
        }
        let key = &keys[i];
        match &key.interface {
            Some(interface) => {
                put(&mut network, interface.as_str(), key.secret);
                put(&mut tor, interface.as_str(), key.tor_key);
            },
            None => {},
        }
        i += 1;
    }
    proof {
        assert(views.take(keys@.len() as int) =~= views);
        lemma_tables_agree(views);
    }
    (network, tor)
}

} // verus!
