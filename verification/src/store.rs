//! A small keyed byte store with lowercase-hex rendering of its
//! values.

use vstd::prelude::*;

verus! {

use crate::{assoc_get, assoc_has, assoc_idx, lemma_assoc_idx, lemma_assoc_idx_unique};

/// Lowercase hex digit of a value below sixteen.
pub open spec fn hex_digit(d: nat) -> char {
    if d == 0 {
        '0'
    } else if d == 1 {
        '1'
    } else if d == 2 {
        '2'
    } else if d == 3 {
        '3'
    } else if d == 4 {
        '4'
    } else if d == 5 {
        '5'
    } else if d == 6 {
        '6'
    } else if d == 7 {
        '7'
    } else if d == 8 {
        '8'
    } else if d == 9 {
        '9'
    } else if d == 10 {
        'a'
    } else if d == 11 {
        'b'
    } else if d == 12 {
        'c'
    } else if d == 13 {
        'd'
    } else if d == 14 {
        'e'
    } else {
        'f'
    }
}

/// Lowercase hex rendering of a byte string: two digits per byte.
pub open spec fn hex_of(s: Seq<u8>) -> Seq<char>
    decreases s.len(),
{
    if s.len() == 0 {
        Seq::empty()
    } else {
        hex_of(s.drop_last()) + seq![
            hex_digit((s.last() / 16) as nat),
            hex_digit((s.last() % 16) as nat),
        ]
    }
}

/// An insert-or-overwrite on an association list: the first entry with
/// the key is replaced, a new key is appended.
pub open spec fn assoc_set<T>(m: Seq<(Seq<char>, T)>, k: Seq<char>, v: T) -> Seq<
    (Seq<char>, T),
> {
    let i = assoc_idx(m, k);
    if i >= 0 {
        m.update(i, (k, v))
    } else {
        m.push((k, v))
    }
}

/// A map from string keys to byte strings.
#[derive(Debug)]
pub struct DataStore {
    data: Vec<(String, Vec<u8>)>,
}

impl Default for DataStore {
    fn default() -> (r: Self)
        ensures
            r.entries() == Seq::<(Seq<char>, Seq<u8>)>::empty(),
    {
        DataStore::new()
    }
}

impl DataStore {
    /// The stored entries, as key/value sequences.
    pub closed spec fn entries(&self) -> Seq<(Seq<char>, Seq<u8>)> {
        self.data@.map_values(|p: (String, Vec<u8>)| (p.0@, p.1@))
    }

    /// Creates a new empty store.
    pub fn new() -> (r: Self)
        ensures
            r.entries() == Seq::<(Seq<char>, Seq<u8>)>::empty(),
    {
        let r = DataStore { data: Vec::new() };
        proof {
            assert(r.entries() =~= Seq::<(Seq<char>, Seq<u8>)>::empty());
        }
        r
    }

    /// Stores a value under a key, replacing any previous value.
    pub fn insert(&mut self, key: String, value: Vec<u8>)
        ensures
            final(self).entries() == assoc_set(old(self).entries(), key@, value@),
    {
        let ghost v = self.entries();
        let ghost kv = key@;
        let mut i: usize = 0;
        while i < self.data.len()
            invariant
                i <= self.data@.len(),
                self.data@ == old(self).data@,
                forall|j: int| 0 <= j < i ==> (#[trigger] v[j]).0 != kv,
                v == self.entries(),
                kv == key@,
            decreases self.data@.len() - i,
        {
            proof {
                assert(v[i as int] == (self.data@[i as int].0@, self.data@[i as int].1@));
            }
            if self.data[i].0.eq(&key) {
                proof {
                    lemma_assoc_idx_unique(v, kv, i as int);
                }
                let entry = (key, value);
                self.data.set(i, entry);
                proof {
                    assert(self.entries() =~= v.update(i as int, (kv, entry.1@)));
                }
                return;
            }
            i = i + 1;
        }
        proof {
            lemma_assoc_idx_unique(v, kv, v.len() as int);
        }
        let ghost vv = value@;
        self.data.push((key, value));
        proof {
            assert(self.entries() =~= v.push((kv, vv)));
        }
    }

    /// Reads the value stored under a key.
    pub fn get(&self, key: &str) -> (r: Option<&Vec<u8>>)
        ensures
            match r {
                Some(v) => assoc_get(self.entries(), key@) == Some(v@),
                None => !assoc_has(self.entries(), key@),
            },
    {
        let kc = crate::text::str_chars(key);
        let ghost v = self.entries();
        let mut i: usize = 0;
        while i < self.data.len()
            invariant
                i <= self.data@.len(),
                kc@ == key@,
                v == self.entries(),
                forall|j: int| 0 <= j < i ==> (#[trigger] v[j]).0 != key@,
            decreases self.data@.len() - i,
        {
            proof {
                assert(v[i as int] == (self.data@[i as int].0@, self.data@[i as int].1@));
            }
            let ec = crate::text::str_chars(self.data[i].0.as_str());
            if crate::eq_chars(&ec, &kc) {
                proof {
                    lemma_assoc_idx_unique(v, key@, i as int);
                }
                return Some(&self.data[i].1);
            }
            i = i + 1;
        }
        proof {
            lemma_assoc_idx_unique(v, key@, v.len() as int);
            lemma_assoc_idx(v, key@);
        }
        None
    }

    /// Renders bytes as lowercase hex, two digits per byte.
    pub fn bytes_to_hex(bytes: &[u8]) -> (r: String)
        ensures
            r@ == hex_of(bytes@),
    {
        let mut chars: Vec<char> = Vec::new();
        let mut i: usize = 0;
        proof {
            assert(bytes@.take(0) =~= Seq::<u8>::empty());
        }
        while i < bytes.len()
            invariant
                i <= bytes@.len(),
                chars@ == hex_of(bytes@.take(i as int)),
            decreases bytes@.len() - i,
        {
            let b = bytes[i];
            chars.push(hex_digit_exec(b / 16));
            chars.push(hex_digit_exec(b % 16));
            proof {
                assert(bytes@.take(i + 1).drop_last() =~= bytes@.take(i as int));
                assert(bytes@.take(i + 1).last() == bytes@[i as int]);
                assert(chars@ =~= hex_of(bytes@.take(i + 1)));
            }
            i = i + 1;
        }
        proof {
            assert(bytes@.take(bytes@.len() as int) =~= bytes@);
        }
        crate::text::chars_to_string(&chars)
    }

    /// Renders the value under a key as hex; an absent key renders as
    /// the empty string.
    pub fn process_data(&self, key: &str) -> (r: String)
        ensures
            r@ == hex_of(
                match assoc_get(self.entries(), key@) {
                    Some(v) => v,
                    None => Seq::<u8>::empty(),
                },
            ),
    {
        match self.get(key) {
            Some(v) => Self::bytes_to_hex(v.as_slice()),
            None => {
                let r = String::new();
                proof {
                    lemma_assoc_idx(self.entries(), key@);
                    assert(hex_of(Seq::<u8>::empty()) =~= Seq::<char>::empty());
                }
                r
            },
        }
    }

    /// Removes every entry.
    pub fn clear(&mut self)
        ensures
            final(self).entries() == Seq::<(Seq<char>, Seq<u8>)>::empty(),
    {
        self.data.clear();
        proof {
            assert(self.entries() =~= Seq::<(Seq<char>, Seq<u8>)>::empty());
        }
    }
}

/// Computes the lowercase hex digit of a value below sixteen.
fn hex_digit_exec(d: u8) -> (c: char)
    requires
        d < 16,
    ensures
        c == hex_digit(d as nat),
{
    match d {
        0 => '0',
        1 => '1',
        2 => '2',
        3 => '3',
        4 => '4',
        5 => '5',
        6 => '6',
        7 => '7',
        8 => '8',
        9 => '9',
        10 => 'a',
        11 => 'b',
        12 => 'c',
        13 => 'd',
        14 => 'e',
        _ => 'f',
    }
}

} // verus!
