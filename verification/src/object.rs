//! An insertion-ordered map from string keys to values.
//!
//! Entries live in a flat arena in the order in which their keys were first
//! inserted, and that is the order of iteration. A binary search tree ordered
//! by a 64-bit hash of the key is threaded through the arena by index so that a
//! lookup does not have to scan.

use vstd::prelude::*;
use vstd::std_specs::cmp::PartialEqSpec;
use vstd::utf8::*;
use crate::entries::{
    distinct_keys, entries_eq, lemma_position, lemma_position_is, lookup, position, upsert,
    without,
};
use crate::text::bytes_eq;
use crate::trusted::str_from_utf8;

verus! {

/// Keys of at most this many bytes are stored inside the node itself.
pub const KEY_BUF_LEN: usize = 32;

/// The value that the FNV-1a hash starts from.
pub const FNV_OFFSET_BASIS: u64 = 0xcbf29ce484222325;

/// The factor of the FNV-1a hash.
pub const FNV_PRIME: u64 = 0x100000001b3;

/// The 64-bit FNV-1a hash of a byte string.
pub open spec fn spec_hash_key(key: Seq<u8>) -> u64
    decreases key.len(),
{
    if key.len() == 0 {
        FNV_OFFSET_BASIS
    } else {
        ((spec_hash_key(key.drop_last()) ^ (key.last() as u64)) as u64).wrapping_mul(FNV_PRIME)
    }
}

/// Hashes a key. The tree is ordered by this number rather than by the key's
/// bytes: comparing two integers is cheaper than comparing two strings, and
/// keys inserted in alphabetical order do not degenerate into a list.
pub fn hash_key(key: &[u8]) -> (hash: u64)
    ensures
        hash == spec_hash_key(key@),
{
    let mut hash: u64 = FNV_OFFSET_BASIS;
    let mut i: usize = 0;
    while i < key.len()
        invariant
            i <= key.len(),
            hash == spec_hash_key(key@.take(i as int)),
        decreases key.len() - i,
    {
        proof {
            assert(key@.take(i + 1).drop_last() =~= key@.take(i as int));
        }
        hash = (hash ^ (key[i] as u64)).wrapping_mul(FNV_PRIME);
        i += 1;
    }
    proof {
        assert(key@.take(i as int) =~= key@);
    }
    hash
}

/// Where a key's bytes are kept: short keys inside the record, long keys in a
/// buffer of their own. Exactly one of the two is in use at any time.
#[derive(Debug)]
enum KeyBytes {
    Inline { buf: [u8; KEY_BUF_LEN], len: usize },
    Heap { bytes: Vec<u8> },
}

/// A key together with its cached hash.
#[derive(Debug)]
struct Key {
    bytes: KeyBytes,
    hash: u64,
}

impl Key {
    /// The bytes of the key.
    pub closed spec fn bytes(&self) -> Seq<u8> {
        match self.bytes {
            KeyBytes::Inline { buf, len } => buf@.take(len as int),
            KeyBytes::Heap { bytes } => bytes@,
        }
    }

    /// The key as a string.
    pub closed spec fn text(&self) -> Seq<char> {
        decode_utf8(self.bytes())
    }

    /// The key is stored where its length says, it is a string, and the hash
    /// is the hash of its bytes.
    pub closed spec fn wf(&self) -> bool {
        &&& match self.bytes {
            KeyBytes::Inline { buf, len } => len <= KEY_BUF_LEN,
            KeyBytes::Heap { bytes } => bytes@.len() > KEY_BUF_LEN,
        }
        &&& valid_utf8(self.bytes())
        &&& self.hash == spec_hash_key(self.bytes())
    }

    /// Stores `key`, inline when it fits in `KEY_BUF_LEN` bytes and on the heap
    /// otherwise.
    fn new(hash: u64, key: &[u8]) -> (k: Key)
        requires
            valid_utf8(key@),
            hash == spec_hash_key(key@),
        ensures
            k.wf(),
            k.bytes() == key@,
            k.hash == hash,
            k.is_inline() <==> key@.len() <= KEY_BUF_LEN,
    {
        let len = key.len();
        if len <= KEY_BUF_LEN {
            let mut buf = [0u8; 32];
            let mut i: usize = 0;
            while i < len
                invariant
                    i <= len <= KEY_BUF_LEN,
                    len == key@.len(),
                    buf@.take(i as int) == key@.take(i as int),
                decreases len - i,
            {
                buf[i] = key[i];
                proof {
                    assert(buf@.take(i + 1) =~= key@.take(i + 1));
                }
                i += 1;
            }
            proof {
                assert(key@.take(len as int) =~= key@);
            }
            Key { bytes: KeyBytes::Inline { buf, len }, hash }
        } else {
            Key { bytes: KeyBytes::Heap { bytes: vstd::slice::slice_to_vec(key) }, hash }
        }
    }

    /// Whether the key is stored inside the record.
    pub closed spec fn is_inline(&self) -> bool {
        self.bytes is Inline
    }

    /// The bytes of the key, from wherever they are stored.
    fn as_bytes(&self) -> (b: &[u8])
        requires
            self.wf(),
        ensures
            b@ == self.bytes(),
    {
        match &self.bytes {
            KeyBytes::Inline { buf, len } => vstd::slice::slice_subrange(buf.as_slice(), 0, *len),
            KeyBytes::Heap { bytes } => bytes.as_slice(),
        }
    }

    /// The key as a string slice.
    fn as_str(&self) -> (s: &str)
        requires
            self.wf(),
        ensures
            s@ == self.text(),
    {
        match str_from_utf8(self.as_bytes()) {
            Some(s) => {
                proof {
                    encode_utf8_decode_utf8(s@);
                }
                s
            },
            // A well-formed key holds a string, so the conversion succeeds.
            None => "",
        }
    }
}

impl Clone for Key {
    /// A key with the same bytes, stored in the same way, with a buffer of
    /// its own if the bytes are on the heap.
    fn clone(&self) -> (k: Key)
        ensures
            self.wf() ==> k.wf() && k.bytes() == self.bytes(),
    {
        match &self.bytes {
            KeyBytes::Inline { buf, len } => Key {
                bytes: KeyBytes::Inline { buf: *buf, len: *len },
                hash: self.hash,
            },
            KeyBytes::Heap { bytes } => Key {
                bytes: KeyBytes::Heap { bytes: bytes.clone() },
                hash: self.hash,
            },
        }
    }
}

/// One record of the search tree: a key and the arena indices of its two
/// children. Index 0 is the root, which is nobody's child, so in a child slot
/// 0 means that there is no child.
#[derive(Debug)]
struct Node {
    key: Key,
    left: usize,
    right: usize,
}

/// Where a search for a key ends: at the node that holds the key, or at the
/// empty child slot where a node for it would have to be linked.
enum Probe {
    Found { index: int },
    Vacant { parent: int, left: bool },
}

/// What a walk down the tree reports: the node that holds the key, the empty
/// child slot that the walk fell into, or that there is no tree yet.
enum Place {
    At { index: usize },
    Under { parent: usize, left: bool },
    Root,
}

/// The search for (`hash`, `key`) in the tree, started at node `at`: smaller
/// hashes are to the left; larger ones, and equal hashes of other keys, are to
/// the right.
spec fn probe(nodes: Seq<Node>, hash: u64, key: Seq<u8>, at: int) -> Probe
    decreases nodes.len() - at,
{
    if at < 0 || at >= nodes.len() {
        Probe::Vacant { parent: at, left: false }
    } else if hash == nodes[at].key.hash && key == nodes[at].key.bytes() {
        Probe::Found { index: at }
    } else {
        let left = hash < nodes[at].key.hash;
        let next = if left {
            nodes[at].left
        } else {
            nodes[at].right
        };
        if at < next < nodes.len() {
            probe(nodes, hash, key, next as int)
        } else {
            Probe::Vacant { parent: at, left }
        }
    }
}

/// Every key is well formed and every child link points forward into the arena.
spec fn linked(nodes: Seq<Node>) -> bool {
    forall|i: int|
        0 <= i < nodes.len() ==> {
            &&& (#[trigger] nodes[i]).key.wf()
            &&& (nodes[i].left == 0 || i < nodes[i].left < nodes.len())
            &&& (nodes[i].right == 0 || i < nodes[i].right < nodes.len())
        }
}

/// A search for the key of any node, started at the root, ends at that node.
spec fn searchable(nodes: Seq<Node>) -> bool {
    forall|i: int|
        0 <= i < nodes.len() ==> probe(
            nodes,
            (#[trigger] nodes[i]).key.hash,
            nodes[i].key.bytes(),
            0,
        ) == (Probe::Found { index: i })
}

/// The entries that keys and values make up, pair by pair.
spec fn entries_of<V>(nodes: Seq<Node>, values: Seq<V>) -> Seq<(Seq<char>, V)> {
    Seq::new(
        if nodes.len() <= values.len() {
            nodes.len()
        } else {
            values.len()
        },
        |i: int| (nodes[i].key.text(), values[i]),
    )
}

/// Two well-formed keys spell the same text only if they hold the same bytes.
proof fn lemma_key_text_injective(a: Key, b: Key)
    requires
        a.wf(),
        b.wf(),
        a.text() == b.text(),
    ensures
        a.bytes() == b.bytes(),
        a.hash == b.hash,
{
    decode_utf8_encode_utf8(a.bytes());
    decode_utf8_encode_utf8(b.bytes());
}

proof fn lemma_distinct<V>(nodes: Seq<Node>, values: Seq<V>)
    requires
        nodes.len() == values.len(),
        linked(nodes),
        searchable(nodes),
    ensures
        distinct_keys(entries_of(nodes, values)),
{
    let entries = entries_of(nodes, values);
    assert forall|i: int, j: int|
        0 <= i < entries.len() && 0 <= j < entries.len() && i != j implies (#[trigger] entries[i]).0
        != (#[trigger] entries[j]).0 by {
        if entries[i].0 == entries[j].0 {
            lemma_key_text_injective(nodes[i].key, nodes[j].key);
        }
    }
}

/// A search that finds a node finds the first entry with the key's text.
proof fn lemma_found<V>(nodes: Seq<Node>, values: Seq<V>, key: Seq<char>, hash: u64, at: int)
    requires
        nodes.len() == values.len(),
        linked(nodes),
        searchable(nodes),
        hash == spec_hash_key(encode_utf8(key)),
        probe(nodes, hash, encode_utf8(key), 0) == (Probe::Found { index: at }),
        0 <= at < nodes.len(),
    ensures
        position(entries_of(nodes, values), key) == Some(at),
        nodes[at].key.text() == key,
{
    let entries = entries_of(nodes, values);
    lemma_probe_found(nodes, hash, encode_utf8(key), 0);
    encode_utf8_decode_utf8(key);
    lemma_distinct(nodes, values);
    assert(entries[at].0 == key);
    lemma_position_is(entries, key, at);
}

/// A search that ends at an empty slot shows that no entry has the key's text.
proof fn lemma_vacant<V>(nodes: Seq<Node>, values: Seq<V>, key: Seq<char>, hash: u64)
    requires
        nodes.len() == values.len(),
        linked(nodes),
        searchable(nodes),
        hash == spec_hash_key(encode_utf8(key)),
        probe(nodes, hash, encode_utf8(key), 0) is Vacant,
    ensures
        position(entries_of(nodes, values), key) is None,
{
    let entries = entries_of(nodes, values);
    lemma_position(entries, key);
    if position(entries, key) is Some {
        let i = position(entries, key).unwrap();
        assert(entries[i].0 == key);
        assert(nodes[i].key.wf());
        decode_utf8_encode_utf8(nodes[i].key.bytes());
        assert(nodes[i].key.bytes() == encode_utf8(key));
    }
}

/// A search that finds a node finds one that holds the key it looked for.
proof fn lemma_probe_found(nodes: Seq<Node>, hash: u64, key: Seq<u8>, at: int)
    requires
        probe(nodes, hash, key, at) is Found,
    ensures
        ({
            let i = probe(nodes, hash, key, at)->index;
            &&& at <= i < nodes.len()
            &&& 0 <= i
            &&& nodes[i].key.hash == hash
            &&& nodes[i].key.bytes() == key
        }),
    decreases nodes.len() - at,
{
    if at < 0 || at >= nodes.len() {
    } else if hash == nodes[at].key.hash && key == nodes[at].key.bytes() {
    } else {
        let left = hash < nodes[at].key.hash;
        let next = if left {
            nodes[at].left
        } else {
            nodes[at].right
        };
        if at < next < nodes.len() {
            lemma_probe_found(nodes, hash, key, next as int);
        }
    }
}

/// A binary-tree map from string keys to values that iterates in insertion
/// order.
///
/// The arena is kept as two vectors of equal length: the records of the tree,
/// and, at the same indices, the values. A mutable reference to a value that
/// the map hands out therefore cannot reach a key or a link.
#[derive(Debug)]
pub struct StrMap<V> {
    nodes: Vec<Node>,
    values: Vec<V>,
}

impl<V> View for StrMap<V> {
    type V = Seq<(Seq<char>, V)>;

    /// The entries, each a key and its value, in the order in which the keys
    /// were first inserted.
    closed spec fn view(&self) -> Seq<(Seq<char>, V)> {
        entries_of(self.nodes@, self.values@)
    }
}

impl<V> StrMap<V> {
    /// Every node has its value, the links form a tree in which children come
    /// after their parents, and every key is found where the search for it
    /// leads.
    #[verifier::type_invariant]
    spec fn inv(&self) -> bool {
        &&& self.nodes@.len() == self.values@.len()
        &&& linked(self.nodes@)
        &&& searchable(self.nodes@)
    }

    /// Creates an empty map. Nothing is allocated until the first insertion.
    pub fn new() -> (map: Self)
        ensures
            map@ == Seq::<(Seq<char>, V)>::empty(),
    {
        let map = StrMap { nodes: Vec::new(), values: Vec::new() };
        assert(map@ =~= Seq::<(Seq<char>, V)>::empty());
        map
    }

    /// Creates an empty map with room for `capacity` entries.
    pub fn with_capacity(capacity: usize) -> (map: Self)
        ensures
            map@ == Seq::<(Seq<char>, V)>::empty(),
    {
        let map = StrMap {
            nodes: Vec::with_capacity(capacity),
            values: Vec::with_capacity(capacity),
        };
        assert(map@ =~= Seq::<(Seq<char>, V)>::empty());
        map
    }

    /// A value of the map is a smaller thing than the map, so that a
    /// definition may follow the values down a tree of maps.
    pub proof fn lemma_value_decreases(self, i: int)
        requires
            0 <= i < self@.len(),
        ensures
            decreases_to!(self => self@[i].1),
    {
        broadcast use vstd::std_specs::vec::axiom_vec_index_decreases;
        assert(self@[i].1 == self.values[i]);
        assert(decreases_to!(self => self.values));
        assert(decreases_to!(self.values => self.values[i]));
    }

    /// The number of entries.
    pub fn len(&self) -> (n: usize)
        ensures
            n == self@.len(),
    {
        proof {
            use_type_invariant(self);
        }
        self.nodes.len()
    }

    /// Whether the map has no entries.
    pub fn is_empty(&self) -> (empty: bool)
        ensures
            empty == (self@.len() == 0),
    {
        proof {
            use_type_invariant(self);
        }
        self.nodes.is_empty()
    }

    /// Removes every entry. The allocated capacity stays.
    pub fn clear(&mut self)
        ensures
            final(self)@ == Seq::<(Seq<char>, V)>::empty(),
    {
        let mut taken = StrMap { nodes: Vec::new(), values: Vec::new() };
        core::mem::swap(self, &mut taken);
        let StrMap { mut nodes, mut values } = taken;
        nodes.clear();
        values.clear();
        *self = StrMap { nodes, values };
        assert(self@ =~= Seq::<(Seq<char>, V)>::empty());
    }

    /// Walks the tree from the root to the node that holds `key`, or to the
    /// empty child slot where the walk falls off the tree.
    fn find(nodes: &Vec<Node>, hash: u64, key: &[u8]) -> (place: Place)
        requires
            linked(nodes@),
        ensures
            match place {
                Place::At { index } => {
                    &&& index < nodes@.len()
                    &&& probe(nodes@, hash, key@, 0) == (Probe::Found { index: index as int })
                },
                Place::Under { parent, left } => {
                    &&& parent < nodes@.len()
                    &&& probe(nodes@, hash, key@, 0) == (Probe::Vacant {
                        parent: parent as int,
                        left,
                    })
                    &&& left ==> nodes@[parent as int].left == 0
                    &&& !left ==> nodes@[parent as int].right == 0
                },
                Place::Root => nodes@.len() == 0,
            },
    {
        if nodes.len() == 0 {
            return Place::Root;
        }
        let mut at: usize = 0;
        loop
            invariant
                linked(nodes@),
                at < nodes@.len(),
                probe(nodes@, hash, key@, at as int) == probe(nodes@, hash, key@, 0),
            decreases nodes@.len() - at,
        {
            let node = &nodes[at];
            if hash == node.key.hash && bytes_eq(key, node.key.as_bytes()) {
                return Place::At { index: at };
            } else if hash < node.key.hash {
                if node.left == 0 {
                    return Place::Under { parent: at, left: true };
                }
                at = node.left;
            } else {
                if node.right == 0 {
                    return Place::Under { parent: at, left: false };
                }
                at = node.right;
            }
        }
    }

    /// The value stored under `key`, if there is one.
    pub fn get(&self, key: &str) -> (value: Option<&V>)
        ensures
            value == match lookup(self@, key@) {
                Some(v) => Some(&v),
                None => None,
            },
            distinct_keys(self@),
    {
        proof {
            use_type_invariant(self);
            lemma_distinct(self.nodes@, self.values@);
        }
        let bytes = key.as_bytes();
        let hash = hash_key(bytes);
        match Self::find(&self.nodes, hash, bytes) {
            Place::At { index } => {
                proof {
                    lemma_found(self.nodes@, self.values@, key@, hash, index as int);
                }
                Some(&self.values[index])
            },
            Place::Under { .. } => {
                proof {
                    lemma_vacant(self.nodes@, self.values@, key@, hash);
                }
                None
            },
            Place::Root => {
                assert(self@.len() == 0);
                None
            },
        }
    }
}


/// `new` is `old` with one more node, hung into the empty child slot of
/// `parent` on the side that `left` names.
spec fn grown(old: Seq<Node>, new: Seq<Node>, parent: int, left: bool) -> bool {
    let n = old.len() as int;
    &&& new.len() == n + 1
    &&& 0 <= parent < n
    &&& new[n].left == 0
    &&& new[n].right == 0
    &&& new[n].key.wf()
    &&& forall|i: int| 0 <= i < n && i != parent ==> #[trigger] new[i] == old[i]
    &&& new[parent].key == old[parent].key
    &&& if left {
        &&& old[parent].left == 0
        &&& new[parent].left == n
        &&& new[parent].right == old[parent].right
    } else {
        &&& old[parent].right == 0
        &&& new[parent].right == n
        &&& new[parent].left == old[parent].left
    }
}

/// Hanging a node into an empty slot changes no search but those that ended in
/// that slot, and they go on at the new node.
proof fn lemma_probe_grown(
    old: Seq<Node>,
    new: Seq<Node>,
    parent: int,
    left: bool,
    hash: u64,
    key: Seq<u8>,
    at: int,
)
    requires
        linked(old),
        grown(old, new, parent, left),
        0 <= at < old.len(),
    ensures
        match probe(old, hash, key, at) {
            Probe::Found { index } => probe(new, hash, key, at) == (Probe::Found { index }),
            Probe::Vacant { parent: p, left: l } => if p == parent && l == left {
                probe(new, hash, key, at) == probe(new, hash, key, old.len() as int)
            } else {
                probe(new, hash, key, at) == (Probe::Vacant { parent: p, left: l })
            },
        },
    decreases old.len() - at,
{
    assert(old[at].key.wf());
    assert(new[at].key == old[at].key);
    if hash == old[at].key.hash && key == old[at].key.bytes() {
    } else {
        let to_left = hash < old[at].key.hash;
        let next = if to_left {
            old[at].left
        } else {
            old[at].right
        };
        if at < next < old.len() {
            lemma_probe_grown(old, new, parent, left, hash, key, next as int);
        }
    }
}

/// Hanging a node for a key that the tree lacks into the slot where the search
/// for that key ended keeps the tree well formed.
proof fn lemma_grown(old: Seq<Node>, new: Seq<Node>, parent: int, left: bool)
    requires
        linked(old),
        searchable(old),
        grown(old, new, parent, left),
        probe(old, new.last().key.hash, new.last().key.bytes(), 0) == (Probe::Vacant {
            parent,
            left,
        }),
    ensures
        linked(new),
        searchable(new),
{
    let n = old.len() as int;
    assert forall|i: int| 0 <= i < new.len() implies {
        &&& (#[trigger] new[i]).key.wf()
        &&& (new[i].left == 0 || i < new[i].left < new.len())
        &&& (new[i].right == 0 || i < new[i].right < new.len())
    } by {
        if i < n {
            assert(old[i].key.wf());
        }
    }
    assert forall|i: int| 0 <= i < new.len() implies probe(
        new,
        (#[trigger] new[i]).key.hash,
        new[i].key.bytes(),
        0,
    ) == (Probe::Found { index: i }) by {
        lemma_probe_grown(old, new, parent, left, new[i].key.hash, new[i].key.bytes(), 0);
        if i < n {
            assert(old[i].key == new[i].key);
        }
    }
}

impl<V> StrMap<V> {
    /// Appends a node for `key` and its `value` to the arena and returns the
    /// index of the two. The node has no children, and no node has it as a
    /// child yet.
    fn add_node(
        nodes: &mut Vec<Node>,
        values: &mut Vec<V>,
        key: &[u8],
        value: V,
        hash: u64,
    ) -> (index: usize)
        requires
            valid_utf8(key@),
            hash == spec_hash_key(key@),
        ensures
            index == old(nodes)@.len(),
            final(nodes)@.len() == index + 1,
            final(nodes)@.drop_last() == old(nodes)@,
            final(nodes)@.last().key.wf(),
            final(nodes)@.last().key.bytes() == key@,
            final(nodes)@.last().key.hash == hash,
            final(nodes)@.last().left == 0,
            final(nodes)@.last().right == 0,
            final(values)@ == old(values)@.push(value),
    {
        let index = nodes.len();
        nodes.push(Node { key: Key::new(hash, key), left: 0, right: 0 });
        values.push(value);
        assert(nodes@.drop_last() =~= old(nodes)@);
        index
    }

    /// Stores `value` under `key` and hands back the stored value. A key that
    /// is already present keeps its place in the order and has its value
    /// replaced; a new key is appended.
    pub fn insert(&mut self, key: &str, value: V) -> (slot: &mut V)
        ensures
            *slot == value,
            final(self)@ =~= upsert(old(self)@, key@, *final(slot)),
            distinct_keys(old(self)@),
    {
        proof {
            use_type_invariant(&*self);
            lemma_distinct(self.nodes@, self.values@);
            encode_utf8_valid_utf8(key@);
            encode_utf8_decode_utf8(key@);
        }
        let bytes = key.as_bytes();
        let hash = hash_key(bytes);
        let place = Self::find(&self.nodes, hash, bytes);
        match place {
            Place::At { index } => {
                proof {
                    lemma_found(self.nodes@, self.values@, key@, hash, index as int);
                }
                self.values[index] = value;
                &mut self.values[index]
            },
            Place::Under { parent, left } => {
                proof {
                    lemma_vacant(self.nodes@, self.values@, key@, hash);
                }
                let mut taken = StrMap { nodes: Vec::new(), values: Vec::new() };
                core::mem::swap(self, &mut taken);
                let StrMap { mut nodes, mut values } = taken;
                let ghost before = nodes@;
                let added = Self::add_node(&mut nodes, &mut values, bytes, value, hash);
                if left {
                    nodes[parent].left = added;
                } else {
                    nodes[parent].right = added;
                }
                proof {
                    assert(grown(before, nodes@, parent as int, left));
                    lemma_grown(before, nodes@, parent as int, left);
                }
                *self = StrMap { nodes, values };
                &mut self.values[added]
            },
            Place::Root => {
                let mut taken = StrMap { nodes: Vec::new(), values: Vec::new() };
                core::mem::swap(self, &mut taken);
                let StrMap { mut nodes, mut values } = taken;
                let root = Self::add_node(&mut nodes, &mut values, bytes, value, hash);
                *self = StrMap { nodes, values };
                &mut self.values[root]
            },
        }
    }
}


impl<V> StrMap<V> {
    /// Replaces the value of the entry that was inserted last. Does nothing on
    /// an empty map.
    pub fn override_last(&mut self, value: V)
        ensures
            final(self)@ =~= if old(self)@.len() > 0 {
                old(self)@.update(old(self)@.len() - 1, (old(self)@.last().0, value))
            } else {
                old(self)@
            },
    {
        proof {
            use_type_invariant(&*self);
        }
        let len = self.values.len();
        if len > 0 {
            self.values[len - 1] = value;
        }
    }

    /// A mutable reference to the value stored under `key`, if there is one.
    pub fn get_mut(&mut self, key: &str) -> (slot: Option<&mut V>)
        ensures
            distinct_keys(old(self)@),
            match position(old(self)@, key@) {
                Some(i) => {
                    &&& slot is Some
                    &&& *slot.unwrap() == old(self)@[i].1
                    &&& final(self)@ =~= old(self)@.update(i, (key@, *final(slot.unwrap())))
                },
                None => slot is None && final(self)@ =~= old(self)@,
            },
    {
        proof {
            use_type_invariant(&*self);
            lemma_distinct(self.nodes@, self.values@);
        }
        let bytes = key.as_bytes();
        let hash = hash_key(bytes);
        match Self::find(&self.nodes, hash, bytes) {
            Place::At { index } => {
                proof {
                    lemma_found(self.nodes@, self.values@, key@, hash, index as int);
                }
                Some(&mut self.values[index])
            },
            Place::Under { .. } => {
                proof {
                    lemma_vacant(self.nodes@, self.values@, key@, hash);
                }
                None
            },
            Place::Root => {
                assert(self@.len() == 0);
                None
            },
        }
    }
}

impl<V: Default> StrMap<V> {
    /// Removes the entry stored under `key` and returns its value, or returns
    /// `None` and changes nothing if there is no such entry.
    ///
    /// Unlinking a node from a tree ordered by hash is not worth its
    /// complications: the map is rebuilt from the entries that stay, in their
    /// order. This takes time linear in the size of the map.
    pub fn remove(&mut self, key: &str) -> (removed: Option<V>)
        ensures
            removed == lookup(old(self)@, key@),
            final(self)@ == without(old(self)@, key@),
            distinct_keys(old(self)@),
            position(final(self)@, key@) is None,
    {
        proof {
            use_type_invariant(&*self);
            lemma_distinct(self.nodes@, self.values@);
        }
        let bytes = key.as_bytes();
        let hash = hash_key(bytes);
        let index = match Self::find(&self.nodes, hash, bytes) {
            Place::At { index } => {
                proof {
                    lemma_found(self.nodes@, self.values@, key@, hash, index as int);
                }
                index
            },
            Place::Under { .. } => {
                proof {
                    lemma_vacant(self.nodes@, self.values@, key@, hash);
                }
                return None;
            },
            Place::Root => {
                assert(self@.len() == 0);
                return None;
            },
        };
        let ghost entries = self@;
        let mut taken = StrMap { nodes: Vec::new(), values: Vec::new() };
        core::mem::swap(self, &mut taken);
        let StrMap { nodes, mut values } = taken;
        let len = nodes.len();
        let mut rebuilt: StrMap<V> = StrMap::with_capacity(len - 1);
        let mut removed: Option<V> = None;
        let mut i: usize = 0;
        while i < len
            invariant
                i <= len,
                index < len,
                len == nodes@.len(),
                len == values@.len(),
                len == entries.len(),
                linked(nodes@),
                distinct_keys(entries),
                forall|j: int| 0 <= j < len ==> (#[trigger] entries[j]).0 == nodes@[j].key.text(),
                forall|j: int| i <= j < len ==> (#[trigger] entries[j]).1 == values@[j],
                rebuilt@ == if i <= index {
                    entries.take(i as int)
                } else {
                    entries.take(i as int).remove(index as int)
                },
                removed == if i <= index {
                    None
                } else {
                    Some(entries[index as int].1)
                },
            decreases len - i,
        {
            let mut value = V::default();
            core::mem::swap(&mut value, &mut values[i]);
            if i == index {
                removed = Some(value);
                proof {
                    assert(entries.take(i + 1).remove(index as int) =~= entries.take(i as int));
                }
            } else {
                let ghost so_far = rebuilt@;
                rebuilt.insert(nodes[i].key.as_str(), value);
                proof {
                    lemma_position(so_far, entries[i as int].0);
                    if i < index {
                        assert(entries.take(i + 1) =~= so_far.push(entries[i as int]));
                    } else {
                        assert(entries.take(i + 1).remove(index as int) =~= so_far.push(
                            entries[i as int],
                        ));
                    }
                }
            }
            i += 1;
        }
        proof {
            assert(entries.take(len as int) =~= entries);
            lemma_position(entries.remove(index as int), key@);
        }
        *self = rebuilt;
        removed
    }
}


impl Clone for Node {
    /// A node with a copy of the key and the same children.
    fn clone(&self) -> (copy: Node)
        ensures
            self.wf() ==> copy.same_as(self),
    {
        Node { key: self.key.clone(), left: self.left, right: self.right }
    }
}

impl Node {
    /// The key of the node is well formed.
    pub closed spec fn wf(&self) -> bool {
        self.key.wf()
    }

    /// Same key, same children.
    pub closed spec fn same_as(&self, other: &Node) -> bool {
        &&& self.key.wf()
        &&& self.key.bytes() == other.key.bytes()
        &&& self.key.hash == other.key.hash
        &&& self.left == other.left
        &&& self.right == other.right
    }
}

/// The tree's shape is in the keys and the links alone.
proof fn lemma_probe_same(a: Seq<Node>, b: Seq<Node>, hash: u64, key: Seq<u8>, at: int)
    requires
        a.len() == b.len(),
        forall|i: int| 0 <= i < a.len() ==> (#[trigger] b[i]).same_as(&a[i]),
    ensures
        probe(b, hash, key, at) == probe(a, hash, key, at),
    decreases a.len() - at,
{
    if 0 <= at < a.len() {
        assert(b[at].same_as(&a[at]));
        if hash == a[at].key.hash && key == a[at].key.bytes() {
        } else {
            let left = hash < a[at].key.hash;
            let next = if left {
                a[at].left
            } else {
                a[at].right
            };
            if at < next < a.len() {
                lemma_probe_same(a, b, hash, key, next as int);
            }
        }
    }
}

proof fn lemma_same_tree(a: Seq<Node>, b: Seq<Node>)
    requires
        a.len() == b.len(),
        forall|i: int| 0 <= i < a.len() ==> (#[trigger] b[i]).same_as(&a[i]),
        linked(a),
        searchable(a),
    ensures
        linked(b),
        searchable(b),
{
    assert forall|i: int| 0 <= i < b.len() implies {
        &&& (#[trigger] b[i]).key.wf()
        &&& (b[i].left == 0 || i < b[i].left < b.len())
        &&& (b[i].right == 0 || i < b[i].right < b.len())
    } by {
        assert(b[i].same_as(&a[i]));
        assert(a[i].key.wf());
    }
    assert forall|i: int| 0 <= i < b.len() implies probe(
        b,
        (#[trigger] b[i]).key.hash,
        b[i].key.bytes(),
        0,
    ) == (Probe::Found { index: i }) by {
        assert(b[i].same_as(&a[i]));
        assert(a[i].key.wf());
        lemma_probe_same(a, b, b[i].key.hash, b[i].key.bytes(), 0);
    }
}

impl<V: Clone> Clone for StrMap<V> {
    /// A map with the same keys in the same order, each value cloned.
    fn clone(&self) -> (copy: Self)
        ensures
            copy@.len() == self@.len(),
            forall|i: int|
                0 <= i < self@.len() ==> (#[trigger] copy@[i]).0 == self@[i].0 && cloned(
                    self@[i].1,
                    copy@[i].1,
                ),
    {
        proof {
            use_type_invariant(self);
        }
        let nodes = self.nodes.clone();
        let values = self.values.clone();
        proof {
            assert forall|i: int| 0 <= i < nodes@.len() implies (#[trigger] nodes@[i]).same_as(
                &self.nodes@[i],
            ) by {
                assert(self.nodes@[i].key.wf());
                assert(cloned(self.nodes@[i], nodes@[i]));
            }
            lemma_same_tree(self.nodes@, nodes@);
        }
        StrMap { nodes, values }
    }
}


impl<V: PartialEq> PartialEq for StrMap<V> {
    /// Compares two maps entry by entry, whatever the order of insertion was.
    fn eq(&self, other: &Self) -> (same: bool)
    {
        proof {
            use_type_invariant(self);
        }
        if self.len() != other.len() {
            return false;
        }
        let mut i: usize = 0;
        while i < self.nodes.len()
            invariant
                i <= self.nodes@.len(),
                self.nodes@.len() == self.values@.len(),
                self@.len() == other@.len(),
                linked(self.nodes@),
                V::obeys_eq_spec() ==> forall|j: int|
                    0 <= j < i ==> match lookup(other@, (#[trigger] self@[j]).0) {
                        Some(v) => v.eq_spec(&self@[j].1),
                        None => false,
                    },
            decreases self.nodes@.len() - i,
        {
            match other.get(self.nodes[i].key.as_str()) {
                Some(theirs) => {
                    if *theirs != self.values[i] {
                        assert(V::obeys_eq_spec() ==> !entries_eq(self@, other@)) by {
                            let _ = self@[i as int];
                        }
                        return false;
                    }
                },
                None => {
                    assert(!entries_eq(self@, other@)) by {
                        let _ = self@[i as int];
                    }
                    return false;
                },
            }
            i += 1;
        }
        true
    }
}

impl<V: PartialEq> vstd::std_specs::cmp::PartialEqSpecImpl for StrMap<V> {
    open spec fn obeys_eq_spec() -> bool {
        V::obeys_eq_spec()
    }

    open spec fn eq_spec(&self, other: &Self) -> bool {
        entries_eq(self@, other@)
    }
}

/// An iterator over the entries of a map, in insertion order, that can be
/// advanced from both ends.
pub struct Iter<'a, V: 'a> {
    nodes: &'a [Node],
    values: &'a [V],
    front: usize,
    back: usize,
}

impl<'a, V: 'a> View for Iter<'a, V> {
    type V = Seq<(Seq<char>, V)>;

    /// The entries that are still to come, first to last.
    closed spec fn view(&self) -> Seq<(Seq<char>, V)> {
        entries_of(self.nodes@, self.values@).subrange(self.front as int, self.back as int)
    }
}

impl<'a, V: 'a> Iter<'a, V> {
    #[verifier::type_invariant]
    spec fn inv(&self) -> bool {
        &&& self.front <= self.back <= self.nodes@.len()
        &&& self.nodes@.len() == self.values@.len()
        &&& forall|i: int| 0 <= i < self.nodes@.len() ==> (#[trigger] self.nodes@[i]).key.wf()
    }

    /// An iterator that yields nothing.
    pub fn empty() -> (iter: Self)
        ensures
            iter@ == Seq::<(Seq<char>, V)>::empty(),
    {
        let iter = Iter { nodes: &[], values: &[], front: 0, back: 0 };
        assert(iter@ =~= Seq::<(Seq<char>, V)>::empty());
        iter
    }

    /// Takes the next entry off the front.
    pub fn next(&mut self) -> (item: Option<(&'a str, &'a V)>)
        ensures
            match item {
                Some((key, value)) => {
                    &&& old(self)@.len() > 0
                    &&& (key@, *value) == old(self)@.first()
                    &&& final(self)@ == old(self)@.drop_first()
                },
                None => old(self)@.len() == 0 && final(self)@ == old(self)@,
            },
    {
        proof {
            use_type_invariant(&*self);
        }
        if self.front < self.back {
            let at = self.front;
            self.front = at + 1;
            assert(self@ =~= old(self)@.drop_first());
            Some((self.nodes[at].key.as_str(), &self.values[at]))
        } else {
            None
        }
    }

    /// Takes the next entry off the back.
    pub fn next_back(&mut self) -> (item: Option<(&'a str, &'a V)>)
        ensures
            match item {
                Some((key, value)) => {
                    &&& old(self)@.len() > 0
                    &&& (key@, *value) == old(self)@.last()
                    &&& final(self)@ == old(self)@.drop_last()
                },
                None => old(self)@.len() == 0 && final(self)@ == old(self)@,
            },
    {
        proof {
            use_type_invariant(&*self);
        }
        if self.front < self.back {
            let at = self.back - 1;
            self.back = at;
            assert(self@ =~= old(self)@.drop_last());
            Some((self.nodes[at].key.as_str(), &self.values[at]))
        } else {
            None
        }
    }
}

impl<V> StrMap<V> {
    /// An iterator over the entries in insertion order.
    pub fn iter(&self) -> (iter: Iter<'_, V>)
        ensures
            iter@ == self@,
            distinct_keys(self@),
    {
        proof {
            use_type_invariant(self);
            lemma_distinct(self.nodes@, self.values@);
        }
        let iter = Iter {
            nodes: self.nodes.as_slice(),
            values: self.values.as_slice(),
            front: 0,
            back: self.nodes.len(),
        };
        assert(iter@ =~= self@);
        iter
    }
}


/// An iterator over the entries of a map, in insertion order, that hands out
/// the values for writing. Each entry it yields borrows from the iterator, so
/// one entry is held at a time.
pub struct IterMut<'a, V: 'a> {
    map: Option<&'a mut StrMap<V>>,
    front: usize,
    back: usize,
}

impl<'a, V: 'a> IterMut<'a, V> {
    /// All entries of the map that is iterated over, as they are now.
    pub closed spec fn entries(&self) -> Seq<(Seq<char>, V)> {
        match self.map {
            Some(map) => map@,
            None => Seq::empty(),
        }
    }

    /// The index in `entries` of the entry that `next` yields.
    pub closed spec fn front(&self) -> int {
        self.front as int
    }

    /// The index in `entries` just behind the entry that `next_back` yields.
    pub closed spec fn back(&self) -> int {
        if self.front <= self.back <= self.entries().len() {
            self.back as int
        } else {
            self.front as int
        }
    }

    /// The entries that are still to come, first to last.
    pub open spec fn remaining(&self) -> Seq<(Seq<char>, V)> {
        self.entries().subrange(self.front(), self.back())
    }

    /// An iterator that yields nothing.
    pub fn empty() -> (iter: Self)
        ensures
            iter.entries() == Seq::<(Seq<char>, V)>::empty(),
            iter.front() == 0,
            iter.back() == 0,
    {
        IterMut { map: None, front: 0, back: 0 }
    }

    /// Takes the next entry off the front.
    pub fn next(&mut self) -> (item: Option<(&str, &mut V)>)
        ensures
            final(self).back() == old(self).back(),
            match item {
                Some((key, value)) => {
                    &&& old(self).front() < old(self).back() <= old(self).entries().len()
                    &&& (key@, *value) == old(self).entries()[old(self).front()]
                    &&& final(self).front() == old(self).front() + 1
                    &&& final(self).entries() =~= old(self).entries().update(
                        old(self).front(),
                        (key@, *final(value)),
                    )
                },
                None => {
                    &&& old(self).front() == old(self).back()
                    &&& final(self).front() == old(self).front()
                    &&& final(self).entries() == old(self).entries()
                },
            },
    {
        let at = self.front;
        let back = self.back;
        match &mut self.map {
            Some(map) => {
                proof {
                    use_type_invariant(&**map);
                }
                if at < back && back <= map.nodes.len() {
                    self.front = at + 1;
                    Some((map.nodes[at].key.as_str(), &mut map.values[at]))
                } else {
                    None
                }
            },
            None => None,
        }
    }

    /// Takes the next entry off the back.
    pub fn next_back(&mut self) -> (item: Option<(&str, &mut V)>)
        ensures
            final(self).front() == old(self).front(),
            match item {
                Some((key, value)) => {
                    &&& old(self).front() < old(self).back() <= old(self).entries().len()
                    &&& (key@, *value) == old(self).entries()[old(self).back() - 1]
                    &&& final(self).back() == old(self).back() - 1
                    &&& final(self).entries() =~= old(self).entries().update(
                        old(self).back() - 1,
                        (key@, *final(value)),
                    )
                },
                None => {
                    &&& old(self).front() == old(self).back()
                    &&& final(self).back() == old(self).back()
                    &&& final(self).entries() == old(self).entries()
                },
            },
    {
        let front = self.front;
        let back = self.back;
        match &mut self.map {
            Some(map) => {
                proof {
                    use_type_invariant(&**map);
                }
                if front < back && back <= map.nodes.len() {
                    self.back = back - 1;
                    Some((map.nodes[back - 1].key.as_str(), &mut map.values[back - 1]))
                } else {
                    None
                }
            },
            None => None,
        }
    }
}

impl<V> StrMap<V> {
    /// An iterator over the entries in insertion order whose values can be
    /// written.
    pub fn iter_mut(&mut self) -> (iter: IterMut<'_, V>)
        ensures
            iter.entries() == old(self)@,
            iter.front() == 0,
            iter.back() == old(self)@.len(),
            distinct_keys(old(self)@),
    {
        proof {
            use_type_invariant(&*self);
            lemma_distinct(self.nodes@, self.values@);
        }
        let back = self.len();
        IterMut { map: Some(self), front: 0, back }
    }
}

} // verus!
