//! The TXT record store and its wire codec.
//!
//! A TXT record is a mapping from byte-string keys to byte-string values.
//! On the wire each entry is length-prefixed: one byte holding the length of
//! `key=value`, then the key, the byte `'='`, and the value.  A key is never
//! empty and never contains `'='`, and no entry's encoded `key=value` may
//! exceed [`TXT_ENTRY_LIMIT`] bytes; inserting an entry that would violate
//! this fails and leaves the record unchanged.

use vstd::prelude::*;

use crate::error::Error;

verus! {

/// The platform limit on one encoded `key=value` entry, in bytes.
pub const TXT_ENTRY_LIMIT: usize = 255;

/// The byte separating a key from its value on the wire: `'='`.
pub const KEY_VALUE_SEPARATOR: u8 = 61;

/// One key/value entry of a TXT record.
#[derive(Debug, Clone)]
pub struct TxtEntry {
    pub key: Vec<u8>,
    pub value: Vec<u8>,
}

impl View for TxtEntry {
    type V = (Seq<u8>, Seq<u8>);

    open spec fn view(&self) -> (Seq<u8>, Seq<u8>) {
        (self.key@, self.value@)
    }
}

/// A key/value pair a record may hold: the key is non-empty, free of the
/// separator, and the encoded entry fits the platform limit.
pub open spec fn entry_ok(k: Seq<u8>, v: Seq<u8>) -> bool {
    &&& 0 < k.len()
    &&& !k.contains(KEY_VALUE_SEPARATOR)
    &&& k.len() + v.len() + 1 <= TXT_ENTRY_LIMIT
}

/// No two entries share a key.
pub open spec fn keys_unique(es: Seq<(Seq<u8>, Seq<u8>)>) -> bool {
    forall|i: int, j: int| 0 <= i < j < es.len() ==> es[i].0 != es[j].0
}

/// A well-formed entry sequence: every entry is admissible and keys are unique.
pub open spec fn wf_entries(es: Seq<(Seq<u8>, Seq<u8>)>) -> bool {
    &&& forall|i: int| 0 <= i < es.len() ==> entry_ok(#[trigger] es[i].0, es[i].1)
    &&& keys_unique(es)
}

/// Some entry carries this key.
pub open spec fn has_key(es: Seq<(Seq<u8>, Seq<u8>)>, k: Seq<u8>) -> bool {
    exists|i: int| 0 <= i < es.len() && #[trigger] es[i].0 == k
}

/// The value stored under a key, if any (first match).
pub open spec fn lookup(es: Seq<(Seq<u8>, Seq<u8>)>, k: Seq<u8>) -> Option<Seq<u8>>
    decreases es.len(),
{
    if es.len() == 0 {
        None
    } else if es.first().0 == k {
        Some(es.first().1)
    } else {
        lookup(es.drop_first(), k)
    }
}

/// The entry sequence with the entry under a key taken out (first match).
pub open spec fn remove_key(es: Seq<(Seq<u8>, Seq<u8>)>, k: Seq<u8>) -> Seq<(Seq<u8>, Seq<u8>)>
    decreases es.len(),
{
    if es.len() == 0 {
        es
    } else if es.first().0 == k {
        es.drop_first()
    } else {
        seq![es.first()] + remove_key(es.drop_first(), k)
    }
}

/// The wire form of one entry: a length byte, the key, `'='`, the value.
pub open spec fn enc_entry(k: Seq<u8>, v: Seq<u8>) -> Seq<u8> {
    seq![(k.len() + v.len() + 1) as u8] + k + seq![KEY_VALUE_SEPARATOR] + v
}

/// The wire form of a whole record: its entries' wire forms, in order.
pub open spec fn enc(es: Seq<(Seq<u8>, Seq<u8>)>) -> Seq<u8>
    decreases es.len(),
{
    if es.len() == 0 {
        Seq::empty()
    } else {
        enc_entry(es.first().0, es.first().1) + enc(es.drop_first())
    }
}

/// The index of the first separator byte in an entry body, if any.
pub open spec fn first_sep_index(e: Seq<u8>) -> Option<int>
    decreases e.len(),
{
    if e.len() == 0 {
        None
    } else if e.first() == KEY_VALUE_SEPARATOR {
        Some(0)
    } else {
        match first_sep_index(e.drop_first()) {
            Some(i) => Some(i + 1),
            None => None,
        }
    }
}

/// The decoding of a wire buffer: `None` where a length prefix runs past the
/// buffer end, an entry body holds no separator, a key would be empty, or two
/// entries would share a key.
pub open spec fn dec(b: Seq<u8>) -> Option<Seq<(Seq<u8>, Seq<u8>)>>
    decreases b.len(),
{
    if b.len() == 0 {
        Some(Seq::empty())
    } else {
        let l = b.first() as int;
        if b.len() < 1 + l {
            None
        } else {
            let e = b.subrange(1, 1 + l);
            match first_sep_index(e) {
                None => None,
                Some(j) => {
                    if j == 0 {
                        None
                    } else {
                        let k = e.subrange(0, j);
                        let v = e.subrange(j + 1, l);
                        match dec(b.skip(1 + l)) {
                            None => None,
                            Some(rest) => {
                                if has_key(rest, k) {
                                    None
                                } else {
                                    Some(seq![(k, v)] + rest)
                                }
                            },
                        }
                    }
                },
            }
        }
    }
}

/// Where the first `i` bytes of an entry body are not the separator, the
/// body's first separator lies at `i` exactly when `i` is in range.
proof fn lemma_first_sep_from_prefix(e: Seq<u8>, i: int)
    requires
        0 <= i <= e.len(),
        forall|m: int| 0 <= m < i ==> e[m] != KEY_VALUE_SEPARATOR,
        i < e.len() ==> e[i] == KEY_VALUE_SEPARATOR,
    ensures
        first_sep_index(e) == if i < e.len() {
            Some(i)
        } else {
            None::<int>
        },
    decreases i,
{
    if i == 0 {
        if e.len() > 0 && e.first() != KEY_VALUE_SEPARATOR {
            assert(e[0] != KEY_VALUE_SEPARATOR);
        }
    } else {
        assert(e.len() > 0);
        assert(e.first() != KEY_VALUE_SEPARATOR);
        let d = e.drop_first();
        assert forall|m: int| 0 <= m < i - 1 implies d[m] != KEY_VALUE_SEPARATOR by {
            assert(d[m] == e[m + 1]);
        }
        if i - 1 < d.len() {
            assert(d[i - 1] == e[i]);
        }
        lemma_first_sep_from_prefix(d, i - 1);
    }
}

/// In the wire body `k + '=' + v` of an admissible entry, the first separator
/// lies exactly at the end of the key.
proof fn lemma_first_sep_of_entry(k: Seq<u8>, v: Seq<u8>)
    requires
        !k.contains(KEY_VALUE_SEPARATOR),
    ensures
        first_sep_index(k + seq![KEY_VALUE_SEPARATOR] + v) == Some(k.len() as int),
{
    let e = k + seq![KEY_VALUE_SEPARATOR] + v;
    assert forall|m: int| 0 <= m < k.len() implies e[m] != KEY_VALUE_SEPARATOR by {
        assert(e[m] == k[m]);
        assert(k.contains(k[m]));
    }
    assert(e[k.len() as int] == KEY_VALUE_SEPARATOR);
    lemma_first_sep_from_prefix(e, k.len() as int);
}

/// Decoding undoes encoding: the wire form of a well-formed entry sequence
/// decodes back to exactly that sequence.  This is the encode→decode round
/// trip; with keys unique on both sides, equality of the sequences is also
/// equality as mappings.
pub proof fn lemma_encode_decode_round_trip(es: Seq<(Seq<u8>, Seq<u8>)>)
    requires
        wf_entries(es),
    ensures
        dec(enc(es)) == Some(es),
    decreases es.len(),
{
    if es.len() == 0 {
        assert(enc(es) == Seq::<u8>::empty());
    } else {
        let k = es.first().0;
        let v = es.first().1;
        assert(entry_ok(es[0].0, es[0].1));
        let rest = es.drop_first();
        let b = enc(es);
        let l = (k.len() + v.len() + 1) as int;
        assert(b == enc_entry(k, v) + enc(rest));
        assert(b.first() == l as u8);
        assert(b.first() as int == l);
        assert(b.len() == 1 + l + enc(rest).len());
        let e = b.subrange(1, 1 + l);
        assert(e =~= k + seq![KEY_VALUE_SEPARATOR] + v);
        lemma_first_sep_of_entry(k, v);
        let j = k.len() as int;
        assert(first_sep_index(e) == Some(j));
        assert(e.subrange(0, j) =~= k);
        assert(e.subrange(j + 1, l) =~= v);
        assert(b.skip(1 + l) =~= enc(rest));
        assert forall|i: int| 0 <= i < rest.len() implies entry_ok(
            #[trigger] rest[i].0,
            rest[i].1,
        ) by {
            assert(rest[i] == es[i + 1]);
        }
        assert forall|i: int, m: int| 0 <= i < m < rest.len() implies rest[i].0 != rest[m].0 by {
            assert(rest[i] == es[i + 1]);
            assert(rest[m] == es[m + 1]);
        }
        lemma_encode_decode_round_trip(rest);
        assert(dec(b.skip(1 + l)) == Some(rest));
        assert(!has_key(rest, k)) by {
            if has_key(rest, k) {
                let i = choose|i: int| 0 <= i < rest.len() && #[trigger] rest[i].0 == k;
                assert(es[i + 1].0 == es[0].0);
            }
        }
        assert(seq![(k, v)] + rest =~= es);
    }
}

/// Whatever decodes is well formed: admissible entries with unique keys.
pub proof fn lemma_dec_wf(b: Seq<u8>)
    requires
        dec(b) is Some,
    ensures
        wf_entries(dec(b).unwrap()),
    decreases b.len(),
{
    if b.len() == 0 {
    } else {
        let l = b.first() as int;
        let e = b.subrange(1, 1 + l);
        let j = first_sep_index(e).unwrap();
        let k = e.subrange(0, j);
        let v = e.subrange(j + 1, l);
        lemma_first_sep_separator_free(e);
        assert(!k.contains(KEY_VALUE_SEPARATOR)) by {
            if k.contains(KEY_VALUE_SEPARATOR) {
                let m = choose|m: int| 0 <= m < k.len() && #[trigger] k[m] == KEY_VALUE_SEPARATOR;
                assert(e[m] == KEY_VALUE_SEPARATOR);
            }
        }
        lemma_dec_wf(b.skip(1 + l));
        let rest = dec(b.skip(1 + l)).unwrap();
        let es = dec(b).unwrap();
        assert(es == seq![(k, v)] + rest);
        assert(l <= 255);
        assert forall|i: int| 0 <= i < es.len() implies entry_ok(
            #[trigger] es[i].0,
            es[i].1,
        ) by {
            if i > 0 {
                assert(es[i] == rest[i - 1]);
            }
        }
        assert forall|i: int, m: int| 0 <= i < m < es.len() implies es[i].0 != es[m].0 by {
            if i > 0 {
                assert(es[i] == rest[i - 1]);
                assert(es[m] == rest[m - 1]);
            } else {
                assert(es[m] == rest[m - 1]);
                assert(!has_key(rest, k));
                if rest[m - 1].0 == k {
                    assert(has_key(rest, k));
                }
            }
        }
    }
}

/// The entry sequence a vector of entries stands for.
pub open spec fn entries_view(s: Seq<TxtEntry>) -> Seq<(Seq<u8>, Seq<u8>)> {
    s.map_values(|e: TxtEntry| (e.key@, e.value@))
}

/// The entry sequence after an insert: an existing key's value is replaced in
/// place, a new key's entry is appended.
pub open spec fn insert_result(
    es: Seq<(Seq<u8>, Seq<u8>)>,
    k: Seq<u8>,
    v: Seq<u8>,
) -> Seq<(Seq<u8>, Seq<u8>)> {
    if has_key(es, k) {
        es.map_values(
            |e: (Seq<u8>, Seq<u8>)|
                if e.0 == k {
                    (k, v)
                } else {
                    e
                },
        )
    } else {
        es.push((k, v))
    }
}

/// Where the first `i` keys differ from `k` and the `i`th matches, the lookup
/// finds the `i`th value.
proof fn lemma_lookup_index(es: Seq<(Seq<u8>, Seq<u8>)>, k: Seq<u8>, i: int)
    requires
        0 <= i < es.len(),
        es[i].0 == k,
        forall|m: int| 0 <= m < i ==> es[m].0 != k,
    ensures
        lookup(es, k) == Some(es[i].1),
    decreases i,
{
    if i == 0 {
    } else {
        let d = es.drop_first();
        assert forall|m: int| 0 <= m < i - 1 implies d[m].0 != k by {
            assert(d[m] == es[m + 1]);
        }
        assert(d[i - 1] == es[i]);
        lemma_lookup_index(d, k, i - 1);
    }
}

/// Where no entry carries the key, the lookup finds nothing.
proof fn lemma_lookup_absent(es: Seq<(Seq<u8>, Seq<u8>)>, k: Seq<u8>)
    requires
        !has_key(es, k),
    ensures
        lookup(es, k) is None,
    decreases es.len(),
{
    if es.len() == 0 {
    } else {
        assert(es[0].0 != k);
        let d = es.drop_first();
        assert forall|m: int| 0 <= m < d.len() implies d[m].0 != k by {
            assert(d[m] == es[m + 1]);
        }
        lemma_lookup_absent(d, k);
    }
}

/// Where the first `i` keys differ from `k` and the `i`th matches, removing
/// the key removes exactly the `i`th entry.
proof fn lemma_remove_key_index(es: Seq<(Seq<u8>, Seq<u8>)>, k: Seq<u8>, i: int)
    requires
        0 <= i < es.len(),
        es[i].0 == k,
        forall|m: int| 0 <= m < i ==> es[m].0 != k,
    ensures
        remove_key(es, k) == es.remove(i),
    decreases i,
{
    if i == 0 {
        assert(es.drop_first() =~= es.remove(0));
    } else {
        let d = es.drop_first();
        assert forall|m: int| 0 <= m < i - 1 implies d[m].0 != k by {
            assert(d[m] == es[m + 1]);
        }
        assert(d[i - 1] == es[i]);
        lemma_remove_key_index(d, k, i - 1);
        assert(seq![es.first()] + d.remove(i - 1) =~= es.remove(i));
    }
}

/// Where no entry carries the key, removing it changes nothing.
proof fn lemma_remove_key_absent(es: Seq<(Seq<u8>, Seq<u8>)>, k: Seq<u8>)
    requires
        !has_key(es, k),
    ensures
        remove_key(es, k) == es,
    decreases es.len(),
{
    if es.len() == 0 {
    } else {
        assert(es[0].0 != k);
        let d = es.drop_first();
        assert forall|m: int| 0 <= m < d.len() implies d[m].0 != k by {
            assert(d[m] == es[m + 1]);
        }
        lemma_remove_key_absent(d, k);
        assert(seq![es.first()] + d =~= es);
    }
}

/// Encoding distributes over concatenation of entry sequences.
proof fn lemma_enc_append(a: Seq<(Seq<u8>, Seq<u8>)>, b: Seq<(Seq<u8>, Seq<u8>)>)
    ensures
        enc(a + b) == enc(a) + enc(b),
    decreases a.len(),
{
    if a.len() == 0 {
        assert(a + b =~= b);
        assert(enc(a) + enc(b) =~= enc(b));
    } else {
        assert((a + b).first() == a.first());
        assert((a + b).drop_first() =~= a.drop_first() + b);
        lemma_enc_append(a.drop_first(), b);
        assert(enc_entry(a.first().0, a.first().1) + (enc(a.drop_first()) + enc(b)) =~= (enc_entry(
            a.first().0,
            a.first().1,
        ) + enc(a.drop_first())) + enc(b));
    }
}

/// Byte-for-byte equality of two byte strings.
pub fn bytes_eq(a: &[u8], b: &[u8]) -> (r: bool)
    ensures
        r == (a@ == b@),
{
    if a.len() != b.len() {
        return false;
    }
    let n = a.len();
    let mut i: usize = 0;
    while i < n
        invariant
            n == a@.len() == b@.len(),
            0 <= i <= n,
            forall|m: int| 0 <= m < i ==> a@[m] == b@[m],
        decreases n - i,
    {
        if a[i] != b[i] {
            return false;
        }
        i = i + 1;
    }
    proof {
        assert(a@ =~= b@);
    }
    true
}

/// True when the byte string holds the key/value separator.
fn contains_separator(s: &[u8]) -> (r: bool)
    ensures
        r == s@.contains(KEY_VALUE_SEPARATOR),
{
    let n = s.len();
    let mut i: usize = 0;
    while i < n
        invariant
            n == s@.len(),
            0 <= i <= n,
            forall|m: int| 0 <= m < i ==> s@[m] != KEY_VALUE_SEPARATOR,
        decreases n - i,
    {
        if s[i] == KEY_VALUE_SEPARATOR {
            assert(s@.contains(KEY_VALUE_SEPARATOR));
            return true;
        }
        i = i + 1;
    }
    false
}

/// A TXT record: a store of unique byte-string keys mapped to byte-string
/// values, with a wire codec.  Iteration order is the store's own and stable
/// within one instance; it is not promised to survive an encode/decode round
/// trip (though this implementation does preserve it).
#[derive(Debug, Clone)]
pub struct TxtRecord {
    entries: Vec<TxtEntry>,
}

impl View for TxtRecord {
    type V = Seq<(Seq<u8>, Seq<u8>)>;

    closed spec fn view(&self) -> Seq<(Seq<u8>, Seq<u8>)> {
        entries_view(self.entries@)
    }
}

impl TxtRecord {
    /// Well-formedness: every entry admissible, keys unique.
    pub open spec fn wf(self) -> bool {
        wf_entries(self@)
    }

    /// An empty record.
    pub fn new() -> (r: TxtRecord)
        ensures
            r@ == Seq::<(Seq<u8>, Seq<u8>)>::empty(),
            r.wf(),
    {
        let r = TxtRecord { entries: Vec::new() };
        proof {
            assert(r@ =~= Seq::<(Seq<u8>, Seq<u8>)>::empty());
        }
        r
    }

    /// The number of entries.
    pub fn len(&self) -> (r: usize)
        ensures
            r == self@.len(),
    {
        self.entries.len()
    }

    /// True of a record with no entries.
    pub fn is_empty(&self) -> (r: bool)
        ensures
            r == (self@.len() == 0),
    {
        self.entries.len() == 0
    }

    /// The entries, in the record's iteration order.
    pub fn entries(&self) -> (r: &Vec<TxtEntry>)
        ensures
            entries_view(r@) == self@,
    {
        &self.entries
    }

    /// The index of the entry carrying this key, if any.
    fn key_index(&self, key: &[u8]) -> (r: Option<usize>)
        ensures
            match r {
                Some(i) => i < self@.len() && self@[i as int].0 == key@ && forall|m: int|
                    0 <= m < i ==> self@[m].0 != key@,
                None => !has_key(self@, key@),
            },
    {
        let n = self.entries.len();
        let mut i: usize = 0;
        while i < n
            invariant
                n == self@.len(),
                0 <= i <= n,
                forall|m: int| 0 <= m < i ==> self@[m].0 != key@,
            decreases n - i,
        {
            if bytes_eq(self.entries[i].key.as_slice(), key) {
                assert(self@[i as int].0 == key@);
                return Some(i);
            }
            i = i + 1;
        }
        None
    }

    /// The value stored under a key, or absent if the key is missing.
    pub fn get(&self, key: &[u8]) -> (r: Option<&Vec<u8>>)
        ensures
            match r {
                Some(v) => lookup(self@, key@) == Some(v@) && has_key(self@, key@),
                None => lookup(self@, key@) is None && !has_key(self@, key@),
            },
    {
        match self.key_index(key) {
            Some(i) => {
                proof {
                    lemma_lookup_index(self@, key@, i as int);
                }
                Some(&self.entries[i].value)
            },
            None => {
                proof {
                    lemma_lookup_absent(self@, key@);
                }
                None
            },
        }
    }

    /// Inserts an entry.  An admissible entry replaces the value under an
    /// existing key or appends a new one; an inadmissible entry (empty key, a
    /// separator in the key, or an encoded length over the limit) fails with
    /// `EncodingError` and leaves the record unchanged.
    pub fn insert(&mut self, key: Vec<u8>, value: Vec<u8>) -> (r: Result<(), Error>)
        requires
            old(self).wf(),
        ensures
            final(self).wf(),
            entry_ok(key@, value@) ==> r is Ok && final(self)@ == insert_result(
                old(self)@,
                key@,
                value@,
            ),
            !entry_ok(key@, value@) ==> r == Err::<(), Error>(Error::EncodingError)
                && final(self)@ == old(self)@,
    {
        if key.len() == 0 || key.len() > TXT_ENTRY_LIMIT || value.len() > TXT_ENTRY_LIMIT {
            return Err(Error::EncodingError);
        }
        if key.len() + value.len() + 1 > TXT_ENTRY_LIMIT {
            return Err(Error::EncodingError);
        }
        if contains_separator(key.as_slice()) {
            return Err(Error::EncodingError);
        }
        let ghost old_es = self@;
        let ghost k = key@;
        let ghost v = value@;
        match self.key_index(key.as_slice()) {
            Some(i) => {
                self.entries[i] = TxtEntry { key, value };
                proof {
                    assert(self@ =~= old_es.map_values(
                        |e: (Seq<u8>, Seq<u8>)|
                            if e.0 == k {
                                (k, v)
                            } else {
                                e
                            },
                    )) by {
                        assert forall|m: int| 0 <= m < old_es.len() && m != i implies old_es[m].0
                            != k by {
                            if m > i {
                                assert(old_es[i as int].0 == k);
                            }
                        }
                    }
                    assert(has_key(old_es, k));
                    assert forall|a: int, b: int|
                        0 <= a < b < self@.len() implies self@[a].0 != self@[b].0 by {
                        assert(old_es[a].0 != old_es[b].0);
                    }
                }
                Ok(())
            },
            None => {
                self.entries.push(TxtEntry { key, value });
                proof {
                    assert(self@ =~= old_es.push((k, v)));
                    assert forall|a: int, b: int|
                        0 <= a < b < self@.len() implies self@[a].0 != self@[b].0 by {
                        if b == self@.len() - 1 {
                            assert(!has_key(old_es, k));
                            assert(self@[a] == old_es[a]);
                        } else {
                            assert(old_es[a].0 != old_es[b].0);
                        }
                    }
                }
                Ok(())
            },
        }
    }

    /// Removes the entry under a key; the result says whether one existed.
    /// The rest of the record is untouched.
    pub fn remove(&mut self, key: &[u8]) -> (r: bool)
        requires
            old(self).wf(),
        ensures
            final(self).wf(),
            r == has_key(old(self)@, key@),
            final(self)@ == remove_key(old(self)@, key@),
    {
        let ghost old_es = self@;
        match self.key_index(key) {
            Some(i) => {
                self.entries.remove(i);
                proof {
                    lemma_remove_key_index(old_es, key@, i as int);
                    assert(self@ =~= old_es.remove(i as int));
                    assert forall|a: int, b: int|
                        0 <= a < b < self@.len() implies self@[a].0 != self@[b].0 by {
                        let a0 = if a < i {
                            a
                        } else {
                            a + 1
                        };
                        let b0 = if b < i {
                            b
                        } else {
                            b + 1
                        };
                        assert(self@[a] == old_es[a0] && self@[b] == old_es[b0]);
                        assert(old_es[a0].0 != old_es[b0].0);
                    }
                }
                true
            },
            None => {
                proof {
                    lemma_remove_key_absent(old_es, key@);
                }
                false
            },
        }
    }

    /// Encodes the record to its flat wire buffer.
    pub fn encode(&self) -> (r: Vec<u8>)
        requires
            self.wf(),
        ensures
            r@ == enc(self@),
    {
        let mut out: Vec<u8> = Vec::new();
        let n = self.entries.len();
        let mut i: usize = 0;
        proof {
            assert(self@.take(0) =~= Seq::<(Seq<u8>, Seq<u8>)>::empty());
        }
        while i < n
            invariant
                self.wf(),
                n == self@.len(),
                0 <= i <= n,
                out@ == enc(self@.take(i as int)),
            decreases n - i,
        {
            let ghost done = self@.take(i as int);
            let e = &self.entries[i];
            assert(entry_ok(self@[i as int].0, self@[i as int].1));
            let l = e.key.len() + e.value.len() + 1;
            out.push(l as u8);
            let mut m: usize = 0;
            let klen = e.key.len();
            while m < klen
                invariant
                    0 <= m <= klen,
                    klen == e.key@.len(),
                    out@ == enc(done) + seq![(klen + e.value@.len() + 1) as u8] + e.key@.take(
                        m as int,
                    ),
                decreases klen - m,
            {
                out.push(e.key[m]);
                proof {
                    assert(e.key@.take(m + 1) =~= e.key@.take(m as int).push(e.key@[m as int]));
                }
                m = m + 1;
            }
            proof {
                assert(e.key@.take(klen as int) =~= e.key@);
            }
            out.push(KEY_VALUE_SEPARATOR);
            let mut m: usize = 0;
            let vlen = e.value.len();
            while m < vlen
                invariant
                    0 <= m <= vlen,
                    vlen == e.value@.len(),
                    out@ == enc(done) + seq![(e.key@.len() + vlen + 1) as u8] + e.key@ + seq![
                        KEY_VALUE_SEPARATOR,
                    ] + e.value@.take(m as int),
                decreases vlen - m,
            {
                out.push(e.value[m]);
                proof {
                    assert(e.value@.take(m + 1) =~= e.value@.take(m as int).push(
                        e.value@[m as int],
                    ));
                }
                m = m + 1;
            }
            proof {
                assert(e.value@.take(vlen as int) =~= e.value@);
                assert(self@.take(i + 1) =~= done + seq![self@[i as int]]);
                lemma_enc_append(done, seq![self@[i as int]]);
                assert(seq![self@[i as int]].drop_first() =~= Seq::<(Seq<u8>, Seq<u8>)>::empty());
                assert(enc(seq![self@[i as int]].drop_first()) == Seq::<u8>::empty());
                assert(enc(seq![self@[i as int]]) =~= enc_entry(
                    self@[i as int].0,
                    self@[i as int].1,
                ));
                assert(out@ =~= enc(self@.take(i + 1)));
            }
            i = i + 1;
        }
        proof {
            assert(self@.take(n as int) =~= self@);
        }
        out
    }

    /// Decodes a flat wire buffer back into a record, failing with
    /// `MalformedRecord` exactly where the buffer decodes to nothing: a
    /// length prefix running past the buffer end, an entry without a
    /// separator or with an empty key, or a repeated key.
    pub fn decode(buf: &Vec<u8>) -> (r: Result<TxtRecord, Error>)
        ensures
            match r {
                Ok(rec) => rec.wf() && dec(buf@) == Some(rec@),
                Err(e) => e == Error::MalformedRecord && dec(buf@) is None,
            },
    {
        proof {
            assert(buf@.skip(0) =~= buf@);
        }
        match decode_from(buf, 0) {
            Ok(es) => {
                let rec = TxtRecord { entries: es };
                proof {
                    lemma_dec_wf(buf@);
                }
                Ok(rec)
            },
            Err(e) => Err(e),
        }
    }
}

/// True when some entry of the vector carries this key.
fn vec_has_key(es: &Vec<TxtEntry>, key: &[u8]) -> (r: bool)
    ensures
        r == has_key(entries_view(es@), key@),
{
    let n = es.len();
    let mut i: usize = 0;
    while i < n
        invariant
            n == es@.len(),
            0 <= i <= n,
            forall|m: int| 0 <= m < i ==> entries_view(es@)[m].0 != key@,
        decreases n - i,
    {
        if bytes_eq(es[i].key.as_slice(), key) {
            assert(entries_view(es@)[i as int].0 == key@);
            return true;
        }
        i = i + 1;
    }
    false
}

/// Decodes the tail of a wire buffer from a position, entry by entry.
fn decode_from(buf: &Vec<u8>, pos: usize) -> (r: Result<Vec<TxtEntry>, Error>)
    requires
        pos <= buf.len(),
    ensures
        match r {
            Ok(es) => dec(buf@.skip(pos as int)) == Some(entries_view(es@)),
            Err(e) => e == Error::MalformedRecord && dec(buf@.skip(pos as int)) is None,
        },
    decreases buf.len() - pos,
{
    let n = buf.len();
    let ghost b = buf@.skip(pos as int);
    if pos == n {
        let es: Vec<TxtEntry> = Vec::new();
        proof {
            assert(b =~= Seq::<u8>::empty());
            assert(entries_view(es@) =~= Seq::<(Seq<u8>, Seq<u8>)>::empty());
        }
        return Ok(es);
    }
    let l = buf[pos] as usize;
    assert(b.first() == buf@[pos as int]);
    if n - pos < 1 + l {
        return Err(Error::MalformedRecord);
    }
    let ghost body = b.subrange(1, 1 + l as int);
    proof {
        assert forall|m: int| 0 <= m < l implies body[m] == buf@[pos + 1 + m] by {}
    }
    // find the first separator in the entry body
    let mut j: usize = 0;
    let mut found: bool = false;
    while j < l && !found
        invariant
            pos + 1 + l <= n == buf@.len(),
            0 <= j <= l,
            body == buf@.skip(pos as int).subrange(1, 1 + l as int),
            body.len() == l,
            forall|m: int| 0 <= m < l ==> body[m] == buf@[pos + 1 + m],
            forall|m: int| 0 <= m < j ==> body[m] != KEY_VALUE_SEPARATOR,
            found ==> j < l && body[j as int] == KEY_VALUE_SEPARATOR,
        decreases l - j + if found {
            0int
        } else {
            1int
        },
    {
        if buf[pos + 1 + j] == KEY_VALUE_SEPARATOR {
            found = true;
        } else {
            j = j + 1;
        }
    }
    if !found {
        proof {
            lemma_first_sep_from_prefix(body, l as int);
        }
        return Err(Error::MalformedRecord);
    }
    proof {
        lemma_first_sep_from_prefix(body, j as int);
        assert(first_sep_index(body) == Some(j as int));
    }
    if j == 0 {
        return Err(Error::MalformedRecord);
    }
    // copy out the key and the value
    let mut key: Vec<u8> = Vec::new();
    let mut m: usize = 0;
    while m < j
        invariant
            pos + 1 + l <= buf@.len(),
            j <= l,
            0 <= m <= j,
            key@.len() == m,
            forall|i: int| 0 <= i < m ==> key@[i] == buf@[pos + 1 + i],
        decreases j - m,
    {
        let byte = buf[pos + 1 + m];
        key.push(byte);
        m = m + 1;
    }
    let mut value: Vec<u8> = Vec::new();
    let mut m: usize = j + 1;
    while m < l
        invariant
            pos + 1 + l <= buf@.len(),
            j + 1 <= m <= l,
            value@.len() == m - j - 1,
            forall|i: int| 0 <= i < m - j - 1 ==> value@[i] == buf@[pos + 1 + j + 1 + i],
        decreases l - m,
    {
        let byte = buf[pos + 1 + m];
        value.push(byte);
        m = m + 1;
    }
    proof {
        assert(key@ =~= body.subrange(0, j as int));
        assert(value@ =~= body.subrange(j as int + 1, l as int));
        assert(buf@.skip((pos + 1 + l) as int) =~= b.skip(1 + l as int));
    }
    let rest = match decode_from(buf, pos + 1 + l) {
        Ok(rest) => rest,
        Err(e) => {
            return Err(e);
        },
    };
    if vec_has_key(&rest, key.as_slice()) {
        return Err(Error::MalformedRecord);
    }
    let ghost old_rest = rest@;
    let mut es = rest;
    es.insert(0, TxtEntry { key, value });
    proof {
        assert(entries_view(es@) =~= seq![(es@[0].key@, es@[0].value@)] + entries_view(old_rest));
    }
    Ok(es)
}

/// Before its first separator an entry body holds no separator byte.
proof fn lemma_first_sep_separator_free(e: Seq<u8>)
    ensures
        match first_sep_index(e) {
            Some(j) => 0 <= j < e.len() && e[j] == KEY_VALUE_SEPARATOR && forall|m: int|
                0 <= m < j ==> e[m] != KEY_VALUE_SEPARATOR,
            None => forall|m: int| 0 <= m < e.len() ==> e[m] != KEY_VALUE_SEPARATOR,
        },
    decreases e.len(),
{
    if e.len() == 0 {
    } else if e.first() == KEY_VALUE_SEPARATOR {
    } else {
        let d = e.drop_first();
        lemma_first_sep_separator_free(d);
        match first_sep_index(d) {
            Some(j) => {
                assert(e[j + 1] == d[j]);
                assert forall|m: int| 0 <= m < j + 1 implies e[m] != KEY_VALUE_SEPARATOR by {
                    if m > 0 {
                        assert(e[m] == d[m - 1]);
                    }
                }
            },
            None => {
                assert forall|m: int| 0 <= m < e.len() implies e[m] != KEY_VALUE_SEPARATOR by {
                    if m > 0 {
                        assert(e[m] == d[m - 1]);
                    }
                }
            },
        }
    }
}

} // verus!
