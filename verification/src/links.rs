//! The links of a page: the hint keys that name them and the map from key
//! to target.

use vstd::prelude::*;

verus! {

/// `String::push` appends one character.
pub assume_specification[ String::push ](text: &mut String, ch: char)
    ensures
        final(text)@ == old(text)@.push(ch),
;

/// One entry of a `TextMap`.
#[derive(Clone, Debug)]
pub struct Entry<V> {
    pub key: String,
    pub value: V,
}

/// A map from texts to values. Entries are kept in the order in which they
/// were put in, and a later entry overrides an earlier one with its key.
#[derive(Clone, Debug)]
pub struct TextMap<V> {
    pub entries: Vec<Entry<V>>,
}

/// The links of a page: from hint key to target.
pub type LinkMap = TextMap<String>;

/// The map that a run of entries stands for.
pub open spec fn map_of<V: View>(entries: Seq<Entry<V>>) -> Map<Seq<char>, V::V>
    decreases entries.len(),
{
    if entries.len() == 0 {
        Map::empty()
    } else {
        map_of(entries.drop_last()).insert(entries.last().key@, entries.last().value@)
    }
}

/// The number of hint keys: the keys are dealt out by a counter of one byte.
pub const HINT_KEYS: usize = 256;

/// The number of letters that a hint key is written with.
pub const LETTERS: u8 = 26;

/// The letter of the alphabet with the given index, counted from `a`.
pub open spec fn letter(index: int) -> char {
    ('a' as u8 + index) as char
}

/// The hint key of the link with the given index on its page: two letters
/// that count up in base 26, `aa`, `ab`, and so on; after `HINT_KEYS` links
/// the keys start again.
pub open spec fn hint_key_of(index: nat) -> Seq<char> {
    let count = index % (HINT_KEYS as nat);
    seq![letter((count / LETTERS as nat) as int), letter((count % LETTERS as nat) as int)]
}

/// The hint key of the link with the given index on its page.
pub fn hint_key(index: usize) -> (key: String)
    ensures
        key@ == hint_key_of(index as nat),
{
    let count: u8 = (index % HINT_KEYS) as u8;
    let first: u8 = 97u8 + count / LETTERS;
    let second: u8 = 97u8 + count % LETTERS;
    let mut key = String::new();
    key.push(first as char);
    key.push(second as char);
    assert(key@ =~= hint_key_of(index as nat));
    key
}

impl<V: View> View for TextMap<V> {
    type V = Map<Seq<char>, V::V>;

    open spec fn view(&self) -> Map<Seq<char>, V::V> {
        map_of(self.entries@)
    }
}

impl<V: View> TextMap<V> {
    /// A map without entries.
    pub fn new() -> (map: TextMap<V>)
        ensures
            map@ == Map::<Seq<char>, V::V>::empty(),
            map.entries@.len() == 0,
    {
        TextMap { entries: Vec::new() }
    }

    /// Binds `key` to `value`, instead of what it was bound to.
    pub fn insert(&mut self, key: String, value: V)
        ensures
            final(self)@ == old(self)@.insert(key@, value@),
            final(self).entries@ == old(self).entries@.push(Entry { key, value }),
    {
        let ghost before = self.entries@;
        self.entries.push(Entry { key, value });
        assert(self.entries@.drop_last() =~= before);
    }

    /// What `key` is bound to.
    pub fn get(&self, key: &String) -> (found: Option<&V>)
        ensures
            match found {
                Some(value) => self@.contains_key(key@) && self@[key@] == value@,
                None => !self@.contains_key(key@),
            },
    {
        let mut at = self.entries.len();
        while at > 0
            invariant
                at <= self.entries@.len(),
                forall|i: int| at <= i < self.entries@.len() ==> self.entries@[i].key@ != key@,
            decreases at,
        {
            at -= 1;
            if self.entries[at].key == *key {
                proof {
                    lemma_map_of_last_match(self.entries@, at as int, key@);
                }
                return Some(&self.entries[at].value);
            }
        }
        proof {
            lemma_map_of_no_match(self.entries@, key@);
        }
        None
    }
}

/// A copy of a map of links.
pub fn copy_links(links: &LinkMap) -> (copy: LinkMap)
    ensures
        copy@ == links@,
        copy.entries@.len() == links.entries@.len(),
        forall|i: int|
            0 <= i < links.entries@.len() ==> (#[trigger] copy.entries@[i]).key@
                == links.entries@[i].key@ && copy.entries@[i].value@ == links.entries@[i].value@,
{
    let mut entries: Vec<Entry<String>> = Vec::new();
    let mut at: usize = 0;
    while at < links.entries.len()
        invariant
            at <= links.entries@.len(),
            entries@.len() == at,
            forall|i: int|
                0 <= i < at ==> (#[trigger] entries@[i]).key@ == links.entries@[i].key@
                    && entries@[i].value@ == links.entries@[i].value@,
        decreases links.entries@.len() - at,
    {
        let entry = &links.entries[at];
        entries.push(Entry { key: entry.key.clone(), value: entry.value.clone() });
        at += 1;
    }
    proof {
        lemma_map_of_same(entries@, links.entries@);
    }
    TextMap { entries }
}

/// The last entry with a key decides what the key is bound to.
pub proof fn lemma_map_of_last_match<V: View>(entries: Seq<Entry<V>>, at: int, key: Seq<char>)
    requires
        0 <= at < entries.len(),
        entries[at].key@ == key,
        forall|i: int| at < i < entries.len() ==> entries[i].key@ != key,
    ensures
        map_of(entries).contains_key(key),
        map_of(entries)[key] == entries[at].value@,
    decreases entries.len(),
{
    if at < entries.len() - 1 {
        let shorter = entries.drop_last();
        assert(shorter[at] == entries[at]);
        assert forall|i: int| at < i < shorter.len() implies shorter[i].key@ != key by {
            assert(shorter[i] == entries[i]);
        }
        lemma_map_of_last_match(shorter, at, key);
    }
}

/// A key that no entry has is not bound.
pub proof fn lemma_map_of_no_match<V: View>(entries: Seq<Entry<V>>, key: Seq<char>)
    requires
        forall|i: int| 0 <= i < entries.len() ==> entries[i].key@ != key,
    ensures
        !map_of(entries).contains_key(key),
    decreases entries.len(),
{
    if entries.len() > 0 {
        let shorter = entries.drop_last();
        assert forall|i: int| 0 <= i < shorter.len() implies shorter[i].key@ != key by {
            assert(shorter[i] == entries[i]);
        }
        lemma_map_of_no_match(shorter, key);
    }
}

/// Entries with the same keys and values stand for the same map.
pub proof fn lemma_map_of_same<V: View>(left: Seq<Entry<V>>, right: Seq<Entry<V>>)
    requires
        left.len() == right.len(),
        forall|i: int|
            0 <= i < left.len() ==> (#[trigger] left[i]).key@ == right[i].key@ && left[i].value@
                == right[i].value@,
    ensures
        map_of(left) == map_of(right),
    decreases left.len(),
{
    if left.len() > 0 {
        let l = left.drop_last();
        let r = right.drop_last();
        assert forall|i: int| 0 <= i < l.len() implies (#[trigger] l[i]).key@ == r[i].key@
            && l[i].value@ == r[i].value@ by {
            assert(l[i] == left[i]);
            assert(r[i] == right[i]);
        }
        assert(left.last() == left[left.len() - 1]);
        lemma_map_of_same(l, r);
    }
}

/// Two letters with different indexes differ.
proof fn lemma_letters_differ(first: int, second: int)
    requires
        0 <= first < 26,
        0 <= second < 26,
        first != second,
    ensures
        letter(first) != letter(second),
{
    assert(letter(first) as int == 97 + first);
    assert(letter(second) as int == 97 + second);
}

/// The hint keys of two links of a page differ, as long as the page has no
/// more links than there are hint keys.
pub proof fn lemma_hint_keys_differ(first: nat, second: nat)
    requires
        first < HINT_KEYS,
        second < HINT_KEYS,
        first != second,
    ensures
        hint_key_of(first) != hint_key_of(second),
{
    vstd::arithmetic::div_mod::lemma_small_mod(first, 256);
    vstd::arithmetic::div_mod::lemma_small_mod(second, 256);
    vstd::arithmetic::div_mod::lemma_fundamental_div_mod(first as int, 26);
    vstd::arithmetic::div_mod::lemma_fundamental_div_mod(second as int, 26);
    let q1 = (first / 26) as int;
    let r1 = (first % 26) as int;
    let q2 = (second / 26) as int;
    let r2 = (second % 26) as int;
    assert(0 <= q1 < 26 && 0 <= q2 < 26);
    assert(0 <= r1 < 26 && 0 <= r2 < 26);
    let a = seq![letter(q1), letter(r1)];
    let b = seq![letter(q2), letter(r2)];
    assert(hint_key_of(first) == a);
    assert(hint_key_of(second) == b);
    if q1 != q2 {
        lemma_letters_differ(q1, q2);
        assert(a[0] != b[0]);
    } else {
        assert(r1 != r2);
        lemma_letters_differ(r1, r2);
        assert(a[1] != b[1]);
    }
}

} // verus!
