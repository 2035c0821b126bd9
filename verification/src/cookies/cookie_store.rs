//! The per-session cookie-value randomization table: one random value
//! per `(domain, cookie name)` pair, generated the first time the pair is
//! seen and reused for the rest of the store's lifetime (one proxy run).
//!
//! Holds no browsing data beyond the in-memory table: nothing here is
//! ever written anywhere.

use rand::RngExt;
use vstd::prelude::*;

use crate::text::{ascii_lower_seq, to_ascii_lowercase};

verus! {

/// Length of a generated replacement cookie value: long enough not to
/// look truncated next to typical tracker IDs, far below the per-cookie
/// size limit browsers enforce.
pub const RANDOM_VALUE_LEN: usize = 32;

/// ASCII letters and digits.
pub open spec fn is_ascii_alnum(c: char) -> bool {
    ('a' <= c && c <= 'z') || ('A' <= c && c <= 'Z') || ('0' <= c && c <= '9')
}

/// A fresh value as this store generates one: `RANDOM_VALUE_LEN` ASCII
/// letters and digits.
pub open spec fn is_generated_value(v: Seq<char>) -> bool {
    v.len() == RANDOM_VALUE_LEN && forall|i: int| 0 <= i < v.len() ==> is_ascii_alnum(#[trigger] v[i])
}

/// `len` characters drawn from `rand`'s `Alphanumeric` distribution with
/// the thread-local generator (`rand::rng()`).
///
/// The characters themselves are random; what `rand` documents is that
/// each is an ASCII letter or digit and that exactly `len` are taken.
#[verifier::external_body]
fn random_alphanumeric(len: usize) -> (r: String)
    ensures
        r@.len() == len,
        forall|i: int| 0 <= i < r@.len() ==> is_ascii_alnum(#[trigger] r@[i]),
{
    rand::rng().sample_iter(&rand::distr::Alphanumeric).take(len).map(char::from).collect()
}

/// The key a lookup is filed under: the domain lowercased, the cookie
/// name as given.
pub open spec fn store_key(domain: Seq<char>, cookie_name: Seq<char>) -> (Seq<char>, Seq<char>) {
    (ascii_lower_seq(domain), cookie_name)
}

pub open spec fn entry_key(e: (String, String, String)) -> (Seq<char>, Seq<char>) {
    (e.0@, e.1@)
}

/// The table as a map from key to value.
pub open spec fn entries_map(es: Seq<(String, String, String)>) -> Map<(Seq<char>, Seq<char>), Seq<char>>
    decreases es.len(),
{
    if es.len() == 0 {
        Map::empty()
    } else {
        entries_map(es.drop_last()).insert(entry_key(es.last()), es.last().2@)
    }
}

pub open spec fn keys_distinct(es: Seq<(String, String, String)>) -> bool {
    forall|i: int, j: int|
        0 <= i < es.len() && 0 <= j < es.len() && i != j ==> entry_key(#[trigger] es[i])
            != entry_key(#[trigger] es[j])
}

proof fn lemma_entries_map_dom(es: Seq<(String, String, String)>)
    requires
        keys_distinct(es),
    ensures
        entries_map(es).dom().finite(),
        entries_map(es).dom().len() == es.len(),
        forall|k: (Seq<char>, Seq<char>)|
            entries_map(es).dom().contains(k) <==> exists|i: int|
                0 <= i < es.len() && entry_key(#[trigger] es[i]) == k,
        forall|i: int|
            0 <= i < es.len() ==> entries_map(es)[entry_key(#[trigger] es[i])] == es[i].2@,
    decreases es.len(),
{
    if es.len() > 0 {
        let rest = es.drop_last();
        assert(keys_distinct(rest)) by {
            assert forall|i: int, j: int|
                0 <= i < rest.len() && 0 <= j < rest.len() && i != j implies entry_key(
                #[trigger] rest[i],
            ) != entry_key(#[trigger] rest[j]) by {
                assert(rest[i] == es[i] && rest[j] == es[j]);
            }
        }
        lemma_entries_map_dom(rest);
        let last = es.last();
        assert(!entries_map(rest).dom().contains(entry_key(last))) by {
            if entries_map(rest).dom().contains(entry_key(last)) {
                let i = choose|i: int| 0 <= i < rest.len() && entry_key(#[trigger] rest[i]) == entry_key(last);
                assert(es[i] == rest[i]);
                assert(entry_key(es[i]) != entry_key(es[es.len() - 1]));
            }
        }
        assert forall|k: (Seq<char>, Seq<char>)|
            entries_map(es).dom().contains(k) <==> exists|i: int|
                0 <= i < es.len() && entry_key(#[trigger] es[i]) == k by {
            if entries_map(rest).dom().contains(k) {
                let i = choose|i: int| 0 <= i < rest.len() && entry_key(#[trigger] rest[i]) == k;
                assert(es[i] == rest[i]);
            }
            if exists|i: int| 0 <= i < es.len() && entry_key(#[trigger] es[i]) == k {
                let i = choose|i: int| 0 <= i < es.len() && entry_key(#[trigger] es[i]) == k;
                if i < rest.len() {
                    assert(rest[i] == es[i]);
                }
            }
            assert(es[es.len() - 1] == last);
        }
        assert forall|i: int| 0 <= i < es.len() implies entries_map(es)[entry_key(
            #[trigger] es[i],
        )] == es[i].2@ by {
            if i < rest.len() {
                assert(rest[i] == es[i]);
                assert(entry_key(es[i]) != entry_key(last));
            }
        }
    }
}

/// Every value of `table` is a generated one, and it holds finitely many.
pub open spec fn generated_table(table: Map<(Seq<char>, Seq<char>), Seq<char>>) -> bool {
    &&& table.dom().finite()
    &&& forall|k| #[trigger] table.contains_key(k) ==> is_generated_value(table[k])
}

/// `after` still holds every value `before` gave out, unchanged.
pub open spec fn keeps_every_value(
    before: Map<(Seq<char>, Seq<char>), Seq<char>>,
    after: Map<(Seq<char>, Seq<char>), Seq<char>>,
) -> bool {
    forall|k| #[trigger] before.contains_key(k) ==> after.contains_key(k) && after[k] == before[k]
}

/// One stable value per pair: over any run of lookups, each of which
/// keeps the values given out before it, a value once given out for a
/// pair is the one the table holds for that pair from then on.
pub proof fn law_one_stable_value_per_pair(tables: Seq<Map<(Seq<char>, Seq<char>), Seq<char>>>, i: int, j: int)
    requires
        forall|n: int| 0 <= n < tables.len() - 1 ==> keeps_every_value(#[trigger] tables[n], tables[n + 1]),
        0 <= i <= j < tables.len(),
    ensures
        keeps_every_value(tables[i], tables[j]),
    decreases j - i,
{
    if i < j {
        law_one_stable_value_per_pair(tables, i, j - 1);
        assert(keeps_every_value(tables[j - 1], tables[j - 1 + 1]));
    }
}

proof fn lemma_entries_map_generated(es: Seq<(String, String, String)>)
    requires
        keys_distinct(es),
        forall|i: int| 0 <= i < es.len() ==> is_generated_value(#[trigger] es[i].2@),
    ensures
        generated_table(entries_map(es)),
{
    lemma_entries_map_dom(es);
    assert forall|k| #[trigger] entries_map(es).contains_key(k) implies is_generated_value(
        entries_map(es)[k],
    ) by {
        let i = choose|i: int| 0 <= i < es.len() && entry_key(#[trigger] es[i]) == k;
        assert(is_generated_value(es[i].2@));
    }
}

/// One stable value per (lowercased domain, exact cookie name) pair for
/// the store's lifetime: once a lookup of `(d1, name)` has given out `v`
/// (it is then in the table under that pair's key), every later table
/// holds `v` under the key of any `(d2, name)` whose domain lowercases
/// the same, so a lookup of it there gives back `v`.
pub proof fn law_same_pair_same_value(
    tables: Seq<Map<(Seq<char>, Seq<char>), Seq<char>>>,
    i: int,
    j: int,
    d1: Seq<char>,
    d2: Seq<char>,
    name: Seq<char>,
    v: Seq<char>,
)
    requires
        forall|n: int| 0 <= n < tables.len() - 1 ==> keeps_every_value(#[trigger] tables[n], tables[n + 1]),
        0 <= i <= j < tables.len(),
        tables[i].contains_key(store_key(d1, name)),
        tables[i][store_key(d1, name)] == v,
        ascii_lower_seq(d1) == ascii_lower_seq(d2),
    ensures
        store_key(d2, name) == store_key(d1, name),
        tables[j].contains_key(store_key(d2, name)),
        tables[j][store_key(d2, name)] == v,
{
    law_one_stable_value_per_pair(tables, i, j);
}

/// The per-session table of substitute cookie values.
#[derive(Debug)]
pub struct CookieStore {
    entries: Vec<(String, String, String)>,
}

impl View for CookieStore {
    type V = Map<(Seq<char>, Seq<char>), Seq<char>>;

    closed spec fn view(&self) -> Map<(Seq<char>, Seq<char>), Seq<char>> {
        entries_map(self.entries@)
    }
}

impl CookieStore {
    #[verifier::type_invariant]
    closed spec fn distinct_keys(self) -> bool {
        &&& keys_distinct(self.entries@)
        &&& forall|i: int| 0 <= i < self.entries@.len() ==> is_generated_value(#[trigger] self.entries@[i].2@)
    }

    /// An empty table.
    pub fn new() -> (s: CookieStore)
        ensures
            s@ == Map::<(Seq<char>, Seq<char>), Seq<char>>::empty(),
    {
        proof {
            assert(Map::<(Seq<char>, Seq<char>), Seq<char>>::empty().dom() =~= Set::empty());
        }
        CookieStore { entries: Vec::new() }
    }

    /// The randomized value to use for `(domain, cookie_name)`: the one
    /// already given out if this pair (domain compared case-insensitively)
    /// was seen before, a freshly generated one, recorded for next time,
    /// otherwise. This is the only producer of substitute values, and it
    /// never sees the real value.
    pub fn randomized_value(&mut self, domain: &str, cookie_name: &str) -> (v: String)
        ensures
            is_generated_value(v@),
            final(self)@.contains_key(store_key(domain@, cookie_name@)),
            final(self)@[store_key(domain@, cookie_name@)] == v@,
            generated_table(final(self)@),
            keeps_every_value(old(self)@, final(self)@),
            old(self)@.contains_key(store_key(domain@, cookie_name@)) ==> v@ == old(
                self,
            )@[store_key(domain@, cookie_name@)] && final(self)@ == old(self)@,
            !old(self)@.contains_key(store_key(domain@, cookie_name@)) ==> is_generated_value(v@)
                && final(self)@ == old(self)@.insert(store_key(domain@, cookie_name@), v@),
    {
        proof {
            use_type_invariant(&*self);
            lemma_entries_map_dom(self.entries@);
        }
        let d = to_ascii_lowercase(domain);
        let name = cookie_name.to_owned();
        let mut i: usize = 0;
        while i < self.entries.len()
            invariant
                self.entries@ == old(self).entries@,
                keys_distinct(self.entries@),
                forall|k: int| 0 <= k < self.entries@.len() ==> is_generated_value(#[trigger] self.entries@[k].2@),
                d@ == ascii_lower_seq(domain@),
                name@ == cookie_name@,
                i <= self.entries@.len(),
                forall|k: int|
                    0 <= k < i ==> entry_key(#[trigger] self.entries@[k]) != store_key(
                        domain@,
                        cookie_name@,
                    ),
            decreases self.entries@.len() - i,
        {
            let e = &self.entries[i];
            if e.0 == d && e.1 == name {
                proof {
                    assert(entry_key(self.entries@[i as int]) == store_key(domain@, cookie_name@));
                    lemma_entries_map_dom(self.entries@);
                    lemma_entries_map_generated(self.entries@);
                    assert(is_generated_value(self.entries@[i as int].2@));
                }
                return e.2.clone();
            }
            i = i + 1;
        }
        proof {
            lemma_entries_map_dom(self.entries@);
            if old(self)@.contains_key(store_key(domain@, cookie_name@)) {
                let k = choose|k: int|
                    0 <= k < self.entries@.len() && entry_key(#[trigger] self.entries@[k])
                        == store_key(domain@, cookie_name@);
            }
        }
        let value = random_alphanumeric(RANDOM_VALUE_LEN);
        let ghost before = self.entries@;
        let entry = (d, name, value.clone());
        let mut entries: Vec<(String, String, String)> = Vec::new();
        std::mem::swap(&mut entries, &mut self.entries);
        entries.push(entry);
        proof {
            assert(entries@.drop_last() =~= before);
            assert forall|a: int, b: int|
                0 <= a < entries@.len() && 0 <= b < entries@.len() && a != b implies entry_key(
                #[trigger] entries@[a],
            ) != entry_key(#[trigger] entries@[b]) by {
                if a < before.len() && b < before.len() {
                    assert(entries@[a] == before[a] && entries@[b] == before[b]);
                } else if a == before.len() {
                    assert(entries@[b] == before[b]);
                } else {
                    assert(entries@[a] == before[a]);
                }
            }
        }
        proof {
            assert forall|k: int| 0 <= k < entries@.len() implies is_generated_value(#[trigger] entries@[k].2@) by {
                if k < before.len() {
                    assert(entries@[k] == before[k]);
                }
            }
            lemma_entries_map_generated(entries@);
        }
        self.entries = entries;
        value
    }

    /// Number of distinct `(domain, cookie name)` pairs randomized so far.
    pub fn randomized_count(&self) -> (n: usize)
        ensures
            n == self@.len(),
            generated_table(self@),
    {
        proof {
            use_type_invariant(self);
            lemma_entries_map_dom(self.entries@);
            lemma_entries_map_generated(self.entries@);
        }
        self.entries.len()
    }
}

impl Default for CookieStore {
    fn default() -> (s: CookieStore)
        ensures
            s@ == Map::<(Seq<char>, Seq<char>), Seq<char>>::empty(),
    {
        CookieStore::new()
    }
}

} // verus!
